use ycm_core::completer::CompletionConfig;
use ycm_core::filename::{
    DirEntry, EntryKind, FileType, FilenameCompleter, Found, Platform, SearchPlan,
};
use ycm_core::server::Options;
use ycm_core::trigger::TriggerTable;
use ycm_core::ycmd_types::{FileData, SimpleRequest};

fn completer(blacklist: &[&str], use_working_dir: bool) -> FilenameCompleter {
    FilenameCompleter::new(
        CompletionConfig {
            min_num_chars: 1,
            max_diagnostics_to_display: 1,
            completion_triggers: TriggerTable::empty(),
            signature_triggers: TriggerTable::empty(),
            max_candidates: 10,
            max_candidates_to_detail: 1,
        },
        blacklist.iter().map(|b| b.to_string()).collect(),
        use_working_dir,
    )
}

fn request(contents: String, column_num: usize) -> SimpleRequest {
    SimpleRequest {
        line_num: 1,
        column_num,
        filepath: String::from("/file"),
        file_data: vec![(String::from("/file"), FileData { filetypes: vec![], contents })],
        completer_target: None,
        working_dir: None,
        extra_conf_data: None,
        start_column: None,
    }
}

fn probes(plan: &SearchPlan) -> Vec<(&str, bool)> {
    plan.probes.iter().map(|p| (p.text.as_str(), p.from_working_dir)).collect()
}

#[test]
fn test_search_path_abs() {
    let completer = completer(&[], false);
    let tmp = "/tmp/.tmpAbCdEf";
    let file_contents = format!("1234{}/ ", tmp);
    let column_num = file_contents.len() + 1; // on the last space in that line
    let request = request(file_contents, column_num);
    let prefix = request.prefix().unwrap();
    let plan = completer.plan_search(&prefix, &vec![]).unwrap();
    // The second probe is the directory; say that it is there.
    assert_eq!(probes(&plan), vec![("/tmp/.tmpAbCdEf", false), ("/.tmpAbCdEf", false)]);
    assert_eq!(
        FilenameCompleter::pick(&plan, &vec![true, false]),
        Some(Found::Probe(0))
    );
    assert_eq!(plan.probes[0].text, tmp);
    assert_eq!(plan.start_column, column_num - 2);
}

#[test]
fn test_search_path_relative() {
    let completer = completer(&[], false);
    let name = ".tmpAbCdEf";
    let file_contents = format!("123 ../{}/ ", name);
    let column_num = file_contents.len() + 1; // on the last space in that line
    let request = request(file_contents, column_num);
    let prefix = request.prefix().unwrap();
    let plan = completer.plan_search(&prefix, &vec![]).unwrap();
    // The path starts at the head, and is meant from the working directory.
    assert_eq!(probes(&plan), vec![("../.tmpAbCdEf", true)]);
    assert_eq!(
        FilenameCompleter::pick(&plan, &vec![true]),
        Some(Found::Probe(0))
    );
    assert_eq!(plan.start_column, column_num - 2);
    assert!(!plan.root_if_none);
}

#[test]
fn no_separator_no_search() {
    let completer = completer(&[], false);
    assert!(completer.plan_search("no path here", &vec![]).is_none());
    assert!(completer.plan_search("", &vec![]).is_none());
    // A backslash separates on Windows only.
    assert!(completer.plan_search(r"a\b", &vec![]).is_none());
    let mut windows = self::completer(&[], false);
    windows.platform = Platform::Windows;
    let plan = windows.plan_search(r"x c:\dir\fi", &vec![]).unwrap();
    assert_eq!(probes(&plan), vec![(r"c:\dir", true)]);
    assert_eq!(plan.start_column, 9);
}

#[test]
fn single_separator_stands_for_the_root() {
    let completer = completer(&[], false);
    let plan = completer.plan_search("x /us", &vec![]).unwrap();
    assert!(plan.probes.is_empty());
    assert!(plan.root_if_none);
    assert_eq!(plan.start_column, 3);
    assert_eq!(FilenameCompleter::pick(&plan, &vec![]), Some(Found::Root));
    let plan = completer.plan_search("a/b/c", &vec![]).unwrap();
    assert!(!plan.root_if_none);
    assert_eq!(FilenameCompleter::pick(&plan, &vec![false]), None);
}

#[test]
fn names_of_the_working_directory_are_heads() {
    let completer = completer(&[], false);
    let names = vec![String::from("src"), String::from("tests")];
    assert_eq!(
        completer.get_dir_head_regex(&names),
        r"(\.{1,2}|~|\$[^$]+|src|tests)$"
    );
    assert_eq!(completer.get_dir_head_regex(&vec![]), r"(\.{1,2}|~|\$[^$]+)$");
    let plan = completer.plan_search("use src/core/ut", &names).unwrap();
    assert_eq!(probes(&plan), vec![("src/core", true)]);
    assert_eq!(plan.start_column, 13);
    let plan = completer.plan_search("use src/core/ut", &vec![]).unwrap();
    assert_eq!(probes(&plan), vec![("/core", false)]);
    let plan = completer.plan_search("cd ~/a/b", &vec![]).unwrap();
    assert_eq!(probes(&plan), vec![("~/a", true)]);
    // A variable reaches up to the end of what stands before the separator.
    let plan = completer.plan_search("cd $HOME/a/b/", &vec![]).unwrap();
    assert_eq!(probes(&plan), vec![("$HOME/a/b", true), ("$HOME/a/b", true)]);
}

#[test]
fn separators_alone_name_nothing() {
    let completer = completer(&[], false);
    let plan = completer.plan_search("x //a", &vec![]).unwrap();
    // From the first separator to the last there is nothing but a separator.
    assert!(plan.probes.is_empty());
    assert!(!plan.root_if_none);
    assert!(completer.has_name("a/b", 0, 3));
    assert!(!completer.has_name("a//b", 1, 3));
    assert!(!completer.has_name("a/b", 1, 1));
}

#[test]
fn probe_comes_from_the_head_or_the_separator() {
    let completer = completer(&[], false);
    let prefix = "cat ../a/b";
    let shown = |m, head, end| {
        completer
            .probe_for(prefix, m, head, end)
            .map(|p| (p.text, p.from_working_dir))
    };
    // With a head the path starts there.
    assert_eq!(shown((6, 8), Some((4, 6)), 8), Some(("../a".to_string(), true)));
    // Without one it starts at the separator.
    assert_eq!(shown((6, 8), None, 8), Some(("/a".to_string(), false)));
    // Nothing but the separator: no probe.
    assert_eq!(shown((6, 8), None, 7), None);
    assert_eq!(shown((8, 10), None, 6), None);
    assert_eq!(shown((6, 8), Some((9, 10)), 8), None);
}

#[test]
fn first_probe_that_exists_is_picked() {
    let completer = completer(&[], false);
    let plan = completer.plan_search("x /a/b/c/d", &vec![]).unwrap();
    assert_eq!(probes(&plan), vec![("/a/b/c", false), ("/b/c", false), ("/c", false)]);
    assert_eq!(
        FilenameCompleter::pick(&plan, &vec![false, true, true]),
        Some(Found::Probe(1))
    );
    assert_eq!(FilenameCompleter::pick(&plan, &vec![false, false, false]), None);
}

#[test]
fn working_directory_choice() {
    let by_file = completer(&[], false);
    let by_request = completer(&[], true);
    let request_dir = Some(String::from("/work"));
    let file_dir = Some(String::from("/src"));
    assert_eq!(by_file.working_directory(&request_dir, &file_dir, "/cwd"), "/src");
    assert_eq!(by_request.working_directory(&request_dir, &file_dir, "/cwd"), "/work");
    assert_eq!(by_file.working_directory(&request_dir, &None, "/cwd"), "/cwd");
    assert_eq!(by_request.working_directory(&None, &file_dir, "/cwd"), "/cwd");
}

#[test]
fn blacklist_disables_filetypes() {
    let filetypes = vec![String::from("rust"), String::from("html")];
    assert!(!completer(&[], false).current_filetype_completion_disabled(&filetypes));
    assert!(!completer(&["c"], false).current_filetype_completion_disabled(&filetypes));
    assert!(completer(&["html"], false).current_filetype_completion_disabled(&filetypes));
    assert!(completer(&["*"], false).current_filetype_completion_disabled(&filetypes));
    assert!(completer(&["*"], false).current_filetype_completion_disabled(&[]));
    assert!(!completer(&["html"], false).current_filetype_completion_disabled(&[]));
}

#[test]
fn file_type_labels() {
    assert_eq!(FileType::File.to_string(), "[File]");
    assert_eq!(FileType::Dir.to_string(), "[Dir]");
    assert_eq!(FileType::FileAndDir.to_string(), "[File&Dir]");
    assert_eq!(FileType::Framework.to_string(), "[Framework]");
    assert_eq!(FileType::FileAndFramework.to_string(), "[File&Framework]");
    assert_eq!(FileType::DirAndFramework.to_string(), "[Dir&Framework]");
    assert_eq!(
        FileType::FileAndDirAndFramework.to_string(),
        "[File&Dir&Framework]"
    );
}

fn entries() -> Vec<DirEntry> {
    vec![
        DirEntry { name: "src".into(), kind: EntryKind::Dir },
        DirEntry { name: "Cargo.toml".into(), kind: EntryKind::File },
        DirEntry { name: "socket".into(), kind: EntryKind::Unknown },
    ]
}

#[test]
fn entries_become_candidates() {
    let completer = completer(&[], false);
    let candidates = completer.generate_path_candidates(&entries());
    let shown = candidates
        .iter()
        .map(|c| (c.insertion_text.as_str(), c.extra_menu_info.as_deref()))
        .collect::<Vec<_>>();
    assert_eq!(
        shown,
        vec![
            ("src", Some("[Dir]")),
            ("Cargo.toml", Some("[File]")),
            ("socket", Some("[File&Dir]")),
        ]
    );
    assert!(candidates[0].menu_text.is_none());
    assert!(candidates[0].detailed_info.is_none());
    assert!(candidates[0].kind.is_none());
    assert!(candidates[0].extra_data.is_none());
    assert!(completer.generate_path_candidates(&vec![]).is_empty());
}

#[test]
fn path_completion_starts_behind_the_separator() {
    let completer = completer(&[], false);
    let contents = String::from("cat ./s");
    let mut request = request(contents, 8);
    assert_eq!(request.query().unwrap(), "s");
    let prefix = request.prefix().unwrap();
    assert_eq!(prefix, "cat ./");
    let plan = completer.plan_search(&prefix, &vec![]).unwrap();
    assert_eq!(plan.start_column, 6);
    let out = completer.complete_path(&mut request, plan.start_column, &entries());
    assert_eq!(request.start_column, Some(6));
    let texts = out.iter().map(|c| c.insertion_text.as_str()).collect::<Vec<_>>();
    assert_eq!(texts, vec!["src", "socket"]);
    // With the start at the separator itself the query holds it.
    let out = completer.complete_path(&mut request, 5, &entries());
    assert_eq!(request.query().unwrap(), "/s");
    assert!(out.is_empty());
}

#[test]
fn options_give_the_filename_completer() {
    let options = Options {
        hmac_secret: String::new(),
        max_num_candidates: 7,
        min_num_of_chars_for_completion: 2,
        max_num_candidates_to_detail: 0,
        max_diagnostics_to_display: 0,
        filepath_blacklist: vec![("html".to_string(), "1".to_string())],
        filepath_completion_use_working_dir: 0,
    };
    let completer = options.filename_completer(Platform::Windows);
    assert_eq!(completer.blacklist, vec!["html"]);
    assert!(!completer.use_working_dir);
    assert_eq!(completer.platform, Platform::Windows);
    assert_eq!(completer.config.max_candidates, 7);
    assert_eq!(Platform::Posix.separators(), "/");
    assert_eq!(Platform::Windows.separators(), "/\\");
    assert!(Platform::Windows.is_separator(b'\\'));
    assert!(!Platform::Posix.is_separator(b'\\'));
}
