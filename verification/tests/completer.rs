use ycm_core::completer::{
    choose_filetype, concatenate, dispatch, funnel, insertion_text_of,
    query_length_above_min_threshold, should_use, triggers_fire, Completer, CompletionConfig,
    EventNotification, GenericCompleters,
};
use ycm_core::filter::{filter_and_sort_generic_candidates, into_slots};
use ycm_core::request::MalformedRequest;
use ycm_core::server::{completion_response, nothing_to_report, Options, ServerState};
use ycm_core::trigger::{parse_triggers, TriggerTable};
use ycm_core::ultisnips::UltisnipsCompleter;
use ycm_core::ycmd_types::{
    Available, Candidate, Event, FileData, MessagePollResponse, SimpleRequest, Subserver,
    UltisnipSnippet,
};

fn config(min_num_chars: usize, max_candidates: usize) -> CompletionConfig {
    let triggers = vec![("c".to_string(), vec![".".to_string(), "->".to_string()])];
    CompletionConfig {
        min_num_chars,
        max_diagnostics_to_display: 1,
        completion_triggers: parse_triggers(vec![triggers], &vec![]),
        signature_triggers: TriggerTable::empty(),
        max_candidates,
        max_candidates_to_detail: 1,
    }
}

fn request(contents: &str, filetypes: &[&str], column_num: usize) -> SimpleRequest {
    SimpleRequest {
        line_num: 1,
        column_num,
        filepath: String::from("/file"),
        file_data: vec![(
            String::from("/file"),
            FileData {
                filetypes: filetypes.iter().map(|f| f.to_string()).collect(),
                contents: contents.to_string(),
            },
        )],
        completer_target: None,
        working_dir: None,
        extra_conf_data: None,
        start_column: None,
    }
}

fn event(event_name: Event, snippets: Option<Vec<UltisnipSnippet>>) -> EventNotification {
    EventNotification {
        line_num: 1,
        column_num: 1,
        filepath: String::from("/file"),
        file_data: vec![],
        completer_target: None,
        working_dir: None,
        extra_conf_data: None,
        event_name,
        ultisnips_snippets: snippets,
    }
}

fn texts(candidates: &[Candidate]) -> Vec<&str> {
    candidates.iter().map(|c| c.insertion_text.as_str()).collect()
}

fn plain(texts: &[&str]) -> Vec<Candidate> {
    texts.iter().map(|t| Candidate::plain(t.to_string())).collect()
}

fn options() -> Options {
    Options {
        hmac_secret: String::from("MDEyMzQ1Njc4OWFiY2RlZg=="),
        max_num_candidates: 3,
        min_num_of_chars_for_completion: 2,
        max_num_candidates_to_detail: -1,
        max_diagnostics_to_display: 30,
        filepath_blacklist: vec![
            ("html".to_string(), "1".to_string()),
            ("jsx".to_string(), "0".to_string()),
            ("xml".to_string(), "1".to_string()),
        ],
        filepath_completion_use_working_dir: 1,
    }
}

struct Fixed {
    config: CompletionConfig,
    found: Vec<&'static str>,
    supported: Vec<String>,
}

impl Completer for Fixed {
    fn get_settings(&self) -> &CompletionConfig {
        &self.config
    }

    fn set_settings(&mut self, settings: CompletionConfig) {
        self.config = settings;
    }

    fn supported_filetypes(&self) -> Vec<String> {
        self.supported.clone()
    }

    fn compute_candidates_inner(&self, _request: &SimpleRequest) -> Vec<Candidate> {
        plain(&self.found)
    }
}

fn fixed(found: &[&'static str]) -> Box<dyn Completer> {
    Box::new(Fixed {
        config: config(1, 10),
        found: found.to_vec(),
        supported: vec![String::from("c")],
    })
}

#[test]
fn filetype_is_the_first_supported_or_the_first() {
    let filetypes = vec!["rust".to_string(), "c".to_string(), "cpp".to_string()];
    let supported = vec!["cpp".to_string(), "c".to_string()];
    assert_eq!(choose_filetype(&filetypes, &supported), Some(1));
    assert_eq!(choose_filetype(&filetypes, &vec![]), Some(0));
    assert_eq!(choose_filetype(&filetypes, &vec!["go".to_string()]), Some(0));
    assert_eq!(choose_filetype(&[], &supported), None);
}

#[test]
fn query_length_threshold() {
    assert!(query_length_above_min_threshold(3, 5, 2));
    assert!(!query_length_above_min_threshold(3, 5, 3));
    assert!(query_length_above_min_threshold(5, 5, 0));
    assert!(!query_length_above_min_threshold(6, 5, 0));
    let completer = UltisnipsCompleter::new(config(2, 10));
    assert!(completer.query_length_above_min_threshold(3, 5));
    assert!(!completer.query_length_above_min_threshold(4, 5));
}

#[test]
fn completer_runs_where_a_trigger_fires() {
    let config = config(1, 10);
    let supported = vec![String::from("c")];
    // The arrow ends where the token starts.
    let arrow = request("foo->ba", &["rust", "c"], 8);
    assert!(triggers_fire(&config, "c", &arrow));
    assert!(!triggers_fire(&config, "rust", &arrow));
    assert!(should_use(&config, &supported, &arrow));
    assert!(!should_use(&config, &vec![], &arrow));
    let colons = request("foo::ba", &["c"], 8);
    assert!(!should_use(&config, &supported, &colons));
    let no_filetype = request("foo->ba", &[], 8);
    assert!(!should_use(&config, &supported, &no_filetype));
    let malformed = request("foo->ba", &["c"], 20);
    assert!(!should_use(&config, &supported, &malformed));
    let completer = fixed(&[]);
    assert!(completer.should_use_now(&arrow));
    assert!(completer.should_use_now_inner("c", &arrow));
    assert!(!completer.should_use_now(&colons));
}

#[test]
fn funnel_filters_sorts_and_cuts() {
    let request = request("x ab", &["c"], 5);
    assert_eq!(request.query().unwrap(), "ab");
    let pool = plain(&["acb", "ab", "Ab", "bab", "A , B", "BA"]);
    let out = funnel(pool.clone(), &request, 10);
    assert_eq!(texts(&out), vec!["A , B", "ab", "Ab", "acb", "bab"]);
    let out = funnel(pool.clone(), &request, 2);
    assert_eq!(texts(&out), vec!["A , B", "ab"]);
    let out = funnel(pool.clone(), &request, 0);
    assert!(out.is_empty());
    let malformed = self::request("x ab", &["c"], 9);
    assert!(funnel(pool, &malformed, 10).is_empty());
}

#[test]
fn generic_filter_hands_back_the_values() {
    let pool: Vec<String> = ["foo", "bar"].iter().map(|s| s.to_string()).collect();
    let key = text_of;
    let out = filter_and_sort_generic_candidates(pool.clone(), "", 10, key);
    assert_eq!(out, vec!["bar", "foo"]);
    let out = filter_and_sort_generic_candidates(pool.clone(), "", 1, key);
    assert_eq!(out, vec!["bar"]);
    let out = filter_and_sort_generic_candidates(pool.clone(), "o", 10, key);
    assert_eq!(out, vec!["foo"]);
    let out = filter_and_sort_generic_candidates(pool, "x", 10, key);
    assert!(out.is_empty());
    let out = filter_and_sort_generic_candidates(Vec::<String>::new(), "x", 10, key);
    assert!(out.is_empty());

    let mut first = Candidate::plain("fooBar".to_string());
    first.menu_text = Some("first".to_string());
    let mut second = Candidate::plain("fb".to_string());
    second.menu_text = Some("second".to_string());
    assert_eq!(insertion_text_of(&first), "fooBar");
    // Both letters of the query start a word of the first.
    let out = filter_and_sort_generic_candidates(vec![second, first], "fb", 10, insertion_text_of);
    assert_eq!(texts(&out), vec!["fooBar", "fb"]);
    assert_eq!(out[0].menu_text.as_deref(), Some("first"));
    assert_eq!(out[1].menu_text.as_deref(), Some("second"));
}

struct Keyed {
    key: String,
    value: u32,
}

fn key_of(keyed: &Keyed) -> &str {
    &keyed.key
}

fn text_of(text: &String) -> &str {
    text
}

#[test]
fn any_value_with_a_key_can_be_ranked() {
    let pool = vec![
        Keyed { key: "bab".into(), value: 1 },
        Keyed { key: "no".into(), value: 2 },
        Keyed { key: "ab".into(), value: 3 },
    ];
    let out = filter_and_sort_generic_candidates(pool, "ab", 10, key_of);
    let values = out.iter().map(|k| k.value).collect::<Vec<_>>();
    assert_eq!(values, vec![3, 1]);
}

#[test]
fn slots_keep_the_order() {
    assert_eq!(into_slots(vec![1, 2, 3]), vec![Some(1), Some(2), Some(3)]);
    assert!(into_slots(Vec::<u8>::new()).is_empty());
}

#[test]
fn lists_are_joined_in_order() {
    let joined = concatenate(vec![plain(&["a", "b"]), vec![], plain(&["c"])]);
    assert_eq!(texts(&joined), vec!["a", "b", "c"]);
    assert!(concatenate(vec![]).is_empty());
}

#[test]
fn file_names_come_first() {
    let request = request("x ab", &["c"], 5);
    let out = dispatch(
        plain(&["zzz", "yyy"]),
        vec![plain(&["ab"])],
        &request,
        1,
    );
    // File names are handed on as they are.
    assert_eq!(texts(&out), vec!["zzz", "yyy"]);
    let out = dispatch(
        vec![],
        vec![plain(&["bab", "xx"]), plain(&["ab"])],
        &request,
        10,
    );
    assert_eq!(texts(&out), vec!["ab", "bab"]);
}

#[test]
fn dispatcher_asks_file_names_first() {
    let mut request = request("x ab", &["c"], 5);
    let dispatcher = GenericCompleters {
        completers: vec![fixed(&["bab", "no"]), fixed(&["ab"])],
        fname_completer: fixed(&[]),
        config: config(1, 10),
    };
    let out = dispatcher.compute_candidates(&mut request);
    assert_eq!(texts(&out), vec!["ab", "bab"]);
    let dispatcher = GenericCompleters {
        completers: vec![fixed(&["bab"]), fixed(&["ab"])],
        fname_completer: fixed(&["abc.txt", "other"]),
        config: config(1, 10),
    };
    let out = dispatcher.compute_candidates(&mut request);
    assert_eq!(texts(&out), vec!["abc.txt"]);
    assert_eq!(dispatcher.get_settings().max_candidates, 10);
}

#[test]
fn snippets_follow_buffer_visits() {
    let mut completer = UltisnipsCompleter::new(config(2, 10));
    assert!(completer.candidates.is_empty());
    let snippets = vec![
        UltisnipSnippet { trigger: "fori".into(), description: "for loop".into() },
        UltisnipSnippet { trigger: "fn".into(), description: "function".into() },
    ];
    // Only a visit brings snippets.
    completer.on_event(&event(Event::FileReadyToParse, Some(snippets.clone())));
    assert!(completer.candidates.is_empty());
    completer.on_event(&event(Event::BufferVisit, Some(snippets)));
    assert_eq!(texts(&completer.candidates), vec!["fori", "fn"]);
    assert_eq!(completer.candidates[0].menu_text.as_deref(), Some("<snip> for loop"));
    assert!(completer.candidates[0].extra_menu_info.is_none());
    assert!(completer.candidates[0].detailed_info.is_none());
    assert!(completer.candidates[0].kind.is_none());
    assert!(completer.candidates[0].extra_data.is_none());
    // A visit without snippets keeps what is there.
    completer.on_event(&event(Event::BufferVisit, None));
    assert_eq!(completer.candidates.len(), 2);
    completer.on_event(&event(Event::BufferVisit, Some(vec![])));
    assert!(completer.candidates.is_empty());
}

#[test]
fn snippets_are_offered_by_query() {
    let mut completer = UltisnipsCompleter::new(config(2, 1));
    completer.on_event(&event(
        Event::BufferVisit,
        Some(vec![
            UltisnipSnippet { trigger: "xfor".into(), description: "a".into() },
            UltisnipSnippet { trigger: "fori".into(), description: "b".into() },
            UltisnipSnippet { trigger: "while".into(), description: "c".into() },
        ]),
    ));
    let mut long = request("  fo", &["c"], 5);
    assert!(completer.should_use_now(&long));
    let out = completer.compute_candidates(&mut long);
    assert_eq!(texts(&out), vec!["fori"]);
    assert_eq!(out[0].menu_text.as_deref(), Some("<snip> b"));
    let short = request("  f", &["c"], 4);
    assert!(!completer.should_use_now(&short));
    let malformed = request("  f", &["c"], 40);
    assert!(!completer.should_use_now(&malformed));
    completer.set_settings(config(1, 5));
    let mut short = request("  f", &["c"], 4);
    let out = completer.compute_candidates(&mut short);
    assert_eq!(texts(&out), vec!["fori", "xfor"]);
}

#[test]
fn defaults_of_a_completer() {
    let completer = UltisnipsCompleter::new(config(2, 10));
    assert!(completer.supported_filetypes().is_empty());
    let mut request = request("foo->ba", &["c"], 8);
    assert!(completer.compute_candidates_inner(&request).is_empty());
    assert!(completer.should_use_now_inner("c", &request));
    assert!(!completer.should_use_now_inner("python", &request));
    // The default funnels what the completer produces, and leaves the
    // request as it is.
    let producer = fixed(&["bar", "ba", "foo"]);
    let out = producer.compute_candidates(&mut request);
    assert_eq!(texts(&out), vec!["ba", "bar"]);
    assert_eq!(request.start_column, None);
    assert_eq!(request.column_num, 8);
    assert_eq!(request.line_num, 1);
    assert_eq!(request.filepath, "/file");
}

#[test]
fn events_leave_the_settings() {
    let mut dispatcher = GenericCompleters {
        completers: vec![fixed(&["a"]), fixed(&["b"])],
        fname_completer: fixed(&[]),
        config: config(3, 7),
    };
    dispatcher.on_event(&event(Event::BufferVisit, None));
    assert_eq!(dispatcher.completers.len(), 2);
    assert_eq!(dispatcher.config.max_candidates, 7);
    assert_eq!(dispatcher.config.min_num_chars, 3);
    let mut state = ServerState::new(options(), fixed(&[]));
    assert!(state.event_notification(event(Event::InsertLeave, None)).is_empty());
    assert_eq!(state.generic_completers.completers.len(), 1);
    assert_eq!(state.generic_completers.config.max_candidates, 3);
    assert_eq!(state.options.max_num_candidates, 3);
}

#[test]
fn completions_are_refused_for_a_malformed_request_only() {
    let state = ServerState::new(options(), fixed(&[]));
    // No such line, no such column, no such file.
    let mut no_line = request("x = ca", &["c"], 1);
    no_line.line_num = 2;
    assert_eq!(state.completions(no_line).err(), Some(MalformedRequest));
    assert_eq!(
        state.completions(request("x = ca", &["c"], 0)).err(),
        Some(MalformedRequest)
    );
    assert_eq!(
        state.completions(request("x = ca", &["c"], 8)).err(),
        Some(MalformedRequest)
    );
    let mut no_file = request("x = ca", &["c"], 1);
    no_file.filepath = String::from("/other");
    assert_eq!(state.completions(no_file).err(), Some(MalformedRequest));
    // Every column on the line or just behind it is answered.
    for column_num in 1..=7 {
        let response = state.completions(request("x = ca", &["c"], column_num)).unwrap();
        assert!(1 <= response.completion_start_column);
        assert!(response.completion_start_column <= column_num);
        assert!(response.errors.is_empty());
    }
}

#[test]
fn settings_come_from_the_options() {
    let options = options();
    let config = options.completion_config();
    assert_eq!(config.min_num_chars, 2);
    assert_eq!(config.max_candidates, 3);
    assert_eq!(config.max_diagnostics_to_display, 3);
    assert_eq!(config.max_candidates_to_detail, -1);
    assert_eq!(config.completion_triggers.len(), 0);
    assert_eq!(config.signature_triggers.len(), 0);
    assert_eq!(options.filename_blacklist(), vec!["html", "xml"]);
    assert!(options.uses_working_dir());
    let mut other = self::options();
    other.filepath_completion_use_working_dir = 0;
    assert!(!other.uses_working_dir());
    other.filepath_completion_use_working_dir = 2;
    assert!(!other.uses_working_dir());
}

#[test]
fn server_answers() {
    let state = ServerState::new(options(), fixed(&[]));
    assert!(state.is_ready());
    assert!(state.is_healthy());
    assert!(state.defined_subcommands(request("", &[], 1)).is_empty());
    assert!(!state.semantic_completer_available(request("", &[], 1)));
    assert_eq!(
        state.signature_help_available(Subserver { subserver: "c".into() }),
        Available::NO
    );
    let info = state.debug_info(request("", &[], 1));
    assert_eq!(info.completer.name, "Rust YCMD");
    assert_eq!(info.python.executable, "/dev/null");
    assert_eq!(info.python.version, "0");
    assert!(!info.clang.has_support);
    assert!(info.clang.version.is_none());
    assert_eq!(info.extra_conf.path, "/dev/null");
    assert!(!info.extra_conf.is_loaded);
    assert!(matches!(
        state.get_messages(request("", &[], 1)),
        MessagePollResponse::MessagePollResponse(true)
    ));
    assert!(matches!(nothing_to_report(), MessagePollResponse::MessagePollResponse(true)));
}

#[test]
fn server_completes() {
    let mut state = ServerState::new(options(), fixed(&[]));
    let snippets = vec![
        UltisnipSnippet { trigger: "case".into(), description: "".into() },
        UltisnipSnippet { trigger: "cabs".into(), description: "".into() },
        UltisnipSnippet { trigger: "ca".into(), description: "".into() },
        UltisnipSnippet { trigger: "catch".into(), description: "".into() },
        UltisnipSnippet { trigger: "do".into(), description: "".into() },
    ];
    assert!(state.event_notification(event(Event::BufferVisit, Some(snippets))).is_empty());
    let response = state.completions(request("x = ca", &["c"], 7)).unwrap();
    // The start column is 1-based, and at most three candidates come.
    assert_eq!(response.completion_start_column, 5);
    assert_eq!(texts(&response.completions), vec!["ca", "cabs", "case"]);
    assert!(response.errors.is_empty());
    assert_eq!(
        state.completions(request("x = ca", &["c"], 70)).err(),
        Some(MalformedRequest)
    );
    let state = ServerState::new(options(), fixed(&["cargo.toml", "src"]));
    let response = state.completions(request("x = ca", &["c"], 7)).unwrap();
    assert_eq!(texts(&response.completions), vec!["cargo.toml"]);
}

#[test]
fn response_carries_the_start_column() {
    let request = request("12345 a8", &["c"], 9);
    let response = completion_response(plain(&["a8b"]), &request).unwrap();
    assert_eq!(response.completion_start_column, 7);
    assert_eq!(texts(&response.completions), vec!["a8b"]);
    assert!(response.errors.is_empty());
    let malformed = self::request("12345 a8", &["c"], 0);
    assert_eq!(
        completion_response(vec![], &malformed).err(),
        Some(MalformedRequest)
    );
}
