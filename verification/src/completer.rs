//! What every completer offers, the decisions that completers share, and
//! the dispatcher that composes them.

use vstd::prelude::*;
use crate::filter::{filter_and_sort_generic_candidates, is_top_ranked, key_given, keyed_by};
use crate::pattern::texts_of;
use crate::request::SimpleRequest;
use crate::trigger::{contains_text, trigger_fires, PatternMatcher, TriggerTable};
use crate::ycmd_types::{Candidate, Event, FileData, UltisnipSnippet};

verus! {

/// What the editor tells the server about: an event in a buffer, with the
/// request that describes the buffer.
#[derive(Clone, Debug)]
pub struct EventNotification {
    pub line_num: usize,
    pub column_num: usize,
    pub filepath: String,
    pub file_data: Vec<(String, FileData)>,
    pub completer_target: Option<crate::ycmd_types::CompleterTarget>,
    pub working_dir: Option<String>,
    pub extra_conf_data: Option<serde_json::Value>,
    pub event_name: Event,
    pub ultisnips_snippets: Option<Vec<UltisnipSnippet>>,
}

/// The settings that completers share.
#[derive(Clone, Debug)]
pub struct CompletionConfig {
    pub min_num_chars: usize,
    pub max_diagnostics_to_display: usize,
    pub completion_triggers: TriggerTable,
    pub signature_triggers: TriggerTable,
    pub max_candidates: usize,
    pub max_candidates_to_detail: isize,
}

/// The position of the first filetype that is among the supported ones;
/// the number of filetypes if none is.
pub open spec fn first_supported(filetypes: Seq<Seq<char>>, supported: Seq<Seq<char>>, i: int) -> int
    decreases filetypes.len() - i,
{
    if i < 0 || i >= filetypes.len() {
        filetypes.len() as int
    } else if supported.contains(filetypes[i]) {
        i
    } else {
        first_supported(filetypes, supported, i + 1)
    }
}

/// The filetype that a completer works with: the first of the file's
/// filetypes that it supports, or the first of all if it supports none.
/// `None` if the file has no filetype.
pub open spec fn chosen_filetype(filetypes: Seq<Seq<char>>, supported: Seq<Seq<char>>) -> Option<int> {
    if filetypes.len() == 0 {
        None
    } else if first_supported(filetypes, supported, 0) < filetypes.len() {
        Some(first_supported(filetypes, supported, 0))
    } else {
        Some(0)
    }
}

/// Picks the filetype that a completer works with.
pub fn choose_filetype(filetypes: &[String], supported: &Vec<String>) -> (r: Option<usize>)
    ensures
        match r {
            Some(at) => chosen_filetype(texts_of(filetypes@), texts_of(supported@)) == Some(
                at as int,
            ) && at < filetypes@.len(),
            None => chosen_filetype(texts_of(filetypes@), texts_of(supported@)) is None,
        },
{
    if filetypes.len() == 0 {
        return None;
    }
    let ghost all = texts_of(filetypes@);
    let mut i: usize = 0;
    while i < filetypes.len()
        invariant
            i <= filetypes.len(),
            all == texts_of(filetypes@),
            first_supported(all, texts_of(supported@), 0) == first_supported(
                all,
                texts_of(supported@),
                i as int,
            ),
        decreases filetypes.len() - i,
    {
        assert(all[i as int] == filetypes@[i as int]@);
        if contains_text(supported, filetypes[i].as_str()) {
            return Some(i);
        }
        i += 1;
    }
    Some(0)
}

/// The query is long enough: the cursor is at least `min_num_chars` behind
/// the start of the token.
pub open spec fn long_enough(start: usize, column: usize, min_num_chars: usize) -> bool {
    column - start >= min_num_chars
}

/// Whether the query is long enough to complete.
pub fn query_length_above_min_threshold(
    start_codepoint: usize,
    column_codepoint: usize,
    min_num_chars: usize,
) -> (r: bool)
    ensures
        r == long_enough(start_codepoint, column_codepoint, min_num_chars),
{
    if column_codepoint >= start_codepoint {
        column_codepoint - start_codepoint >= min_num_chars
    } else {
        false
    }
}

/// A completion trigger of the filetype fires on the request's line. The
/// request must be about a line that it carries.
pub open spec fn completion_due(config: CompletionConfig, filetype: Seq<char>, request: SimpleRequest) -> bool {
    match (request.cursor_line_model(), request.start_model()) {
        (Some(line), Some(start)) => trigger_fires(
            config.completion_triggers@,
            filetype,
            line,
            start as usize,
            request.column_num,
        ),
        _ => false,
    }
}

/// Whether a completion trigger of the filetype fires on the request's line.
pub fn triggers_fire(config: &CompletionConfig, filetype: &str, request: &SimpleRequest) -> (r: bool)
    ensures
        r == completion_due(*config, filetype@, *request),
{
    match request.cursor_line() {
        Ok(line) => {
            let start = request.start_column_in(line.as_str());
            config.completion_triggers.matches_for_filetype(
                filetype,
                line.as_str(),
                start,
                request.column_num,
            )
        },
        Err(_) => false,
    }
}

/// A completer should run: the file has a filetype, and a completion
/// trigger of the filetype that the completer works with fires.
pub open spec fn should_run(
    config: CompletionConfig,
    supported: Seq<Seq<char>>,
    request: SimpleRequest,
) -> bool {
    let filetypes = texts_of(request.filetypes_model());
    match chosen_filetype(filetypes, supported) {
        Some(at) => completion_due(config, filetypes[at], request),
        None => false,
    }
}

/// Whether a completer with these settings and supported filetypes should
/// run on the request.
pub fn should_use(config: &CompletionConfig, supported: &Vec<String>, request: &SimpleRequest) -> (r:
    bool)
    ensures
        r == should_run(*config, texts_of(supported@), *request),
{
    let filetypes = request.filetypes();
    match choose_filetype(filetypes, supported) {
        Some(at) => {
            assert(texts_of(filetypes@)[at as int] == filetypes@[at as int]@);
            triggers_fire(config, filetypes[at].as_str(), request)
        },
        None => false,
    }
}

/// The text that a candidate is ranked by: the text that it inserts.
pub fn insertion_text_of(candidate: &Candidate) -> (r: &str)
    ensures
        r@ == candidate.insertion_text@,
{
    candidate.insertion_text.as_str()
}

/// The texts that the candidates insert.
pub open spec fn insertion_texts(candidates: Seq<Candidate>) -> Seq<Seq<char>> {
    Seq::new(candidates.len(), |i: int| candidates[i].insertion_text@)
}

/// The candidates of a producer, passed through the funnel: those whose
/// insertion text the request's query occurs in, the best `max_candidates`
/// of them, in rank order. Nothing if the request does not say where its
/// query is.
pub fn funnel(candidates: Vec<Candidate>, request: &SimpleRequest, max_candidates: usize) -> (r: Vec<
    Candidate,
>)
    ensures
        match request.query_model() {
            None => r@.len() == 0,
            Some(query) => is_top_ranked(
                r@,
                candidates@,
                insertion_texts(candidates@),
                query,
                max_candidates,
            ),
        },
{
    match request.query() {
        Ok(query) => {
            let r = filter_and_sort_generic_candidates(
                candidates,
                query.as_str(),
                max_candidates,
                insertion_text_of,
            );
            proof {
                let keys = choose|keys: Seq<Seq<char>>|
                    #[trigger] keyed_by(insertion_text_of, candidates@, keys) && is_top_ranked(
                        r@,
                        candidates@,
                        keys,
                        query@,
                        max_candidates,
                    );
                assert forall|i: int| 0 <= i < keys.len() implies keys[i] == insertion_texts(
                    candidates@,
                )[i] by {
                    assert(key_given(insertion_text_of, candidates@[i], keys[i]));
                }
                assert(keys =~= insertion_texts(candidates@));
            }
            r
        },
        Err(_) => Vec::new(),
    }
}

/// The candidates have passed through the funnel for the request: they are
/// the best `max_candidates` of those whose insertion text the request's
/// query occurs in, in rank order; none, if the request does not say where
/// its query is.
pub open spec fn is_funnelled(
    out: Seq<Candidate>,
    candidates: Seq<Candidate>,
    request: SimpleRequest,
    max_candidates: usize,
) -> bool {
    match request.query_model() {
        None => out.len() == 0,
        Some(query) => is_top_ranked(
            out,
            candidates,
            insertion_texts(candidates),
            query,
            max_candidates,
        ),
    }
}

/// The request is as it was before, but for the column at which the
/// completion starts.
pub open spec fn same_but_start(after: SimpleRequest, before: SimpleRequest) -> bool {
    &&& after.line_num == before.line_num
    &&& after.column_num == before.column_num
    &&& after.filepath == before.filepath
    &&& after.file_data == before.file_data
    &&& after.completer_target == before.completer_target
    &&& after.working_dir == before.working_dir
    &&& after.extra_conf_data == before.extra_conf_data
}

/// A source of completions. A completer says where its settings are; the
/// other methods have defaults that work from the settings and the
/// supported filetypes alone, and a completer replaces those that it does
/// differently.
pub trait Completer: Send {
    /// The settings of the completer.
    fn get_settings(&self) -> &CompletionConfig;

    /// Replaces the settings of the completer.
    fn set_settings(&mut self, settings: CompletionConfig);

    /// The filetypes that the completer knows. By default it knows none.
    fn supported_filetypes(&self) -> (r: Vec<String>)
        default_ensures
            r@.len() == 0,
    {
        Vec::new()
    }

    /// Whether the completer should run on the request. By default it
    /// runs where the file has a filetype and a completion trigger of its
    /// settings fires for the filetype that it works with: the first of the
    /// file's filetypes that it supports, or the first of all.
    fn should_use_now(&self, request: &SimpleRequest) -> (r: bool)
        default_ensures
            exists|supported: Vec<String>, settings: &CompletionConfig|
                {
                    &&& #[trigger] call_ensures(Self::supported_filetypes, (self,), supported)
                    &&& #[trigger] call_ensures(Self::get_settings, (self,), settings)
                    &&& r == should_run(*settings, texts_of(supported@), *request)
                },
    {
        let supported = self.supported_filetypes();
        should_use(self.get_settings(), &supported, request)
    }

    /// Whether a completion trigger of the filetype fires on the request.
    /// By default the triggers are those of the settings.
    fn should_use_now_inner(&self, filetype: &str, request: &SimpleRequest) -> (r: bool)
        default_ensures
            exists|settings: &CompletionConfig|
                {
                    &&& #[trigger] call_ensures(Self::get_settings, (self,), settings)
                    &&& r == completion_due(*settings, filetype@, *request)
                },
    {
        triggers_fire(self.get_settings(), filetype, request)
    }

    /// Takes note of an event in the editor.
    fn on_event(&mut self, _event: &EventNotification) {
    }

    /// The completions for the request. A completer may note in the
    /// request where the completion starts; it changes nothing else of it.
    /// By default the completions are what the completer produces, passed
    /// through the funnel with the limit of its settings, and the request
    /// stays as it is.
    fn compute_candidates(&self, request: &mut SimpleRequest) -> (r: Vec<Candidate>)
        ensures
            same_but_start(*final(request), *old(request)),
        default_ensures
            *final(request) == *old(request),
            exists|produced: Vec<Candidate>, settings: &CompletionConfig|
                {
                    &&& #[trigger] call_ensures(
                        Self::compute_candidates_inner,
                        (self, &*old(request)),
                        produced,
                    )
                    &&& #[trigger] call_ensures(Self::get_settings, (self,), settings)
                    &&& is_funnelled(r@, produced@, *old(request), settings.max_candidates)
                },
    {
        let candidates = self.compute_candidates_inner(request);
        let max_candidates = self.get_settings().max_candidates;
        funnel(candidates, request, max_candidates)
    }

    /// What the completer produces for the request, before the funnel. By
    /// default it produces nothing.
    fn compute_candidates_inner(&self, _request: &SimpleRequest) -> (r: Vec<Candidate>)
        default_ensures
            r@.len() == 0,
    {
        Vec::new()
    }

    /// Whether the query is long enough to complete. By default it is
    /// where the cursor is at least as far behind the start of the token as
    /// the settings ask for.
    fn query_length_above_min_threshold(
        &self,
        start_codepoint: usize,
        column_codepoint: usize,
    ) -> (r: bool)
        default_ensures
            exists|settings: &CompletionConfig|
                {
                    &&& #[trigger] call_ensures(Self::get_settings, (self,), settings)
                    &&& r == long_enough(start_codepoint, column_codepoint, settings.min_num_chars)
                },
    {
        self::query_length_above_min_threshold(
            start_codepoint,
            column_codepoint,
            self.get_settings().min_num_chars,
        )
    }
}

/// The candidate lists, one after the other.
pub open spec fn joined_upto(lists: Seq<Vec<Candidate>>, n: int) -> Seq<Candidate>
    decreases n,
{
    if n <= 0 {
        Seq::empty()
    } else {
        joined_upto(lists, n - 1) + lists[n - 1]@
    }
}

/// Joins candidate lists, one after the other.
pub fn concatenate(lists: Vec<Vec<Candidate>>) -> (r: Vec<Candidate>)
    ensures
        r@ == joined_upto(lists@, lists@.len() as int),
{
    let mut lists = lists;
    let ghost all = lists@;
    let mut parts: Vec<Vec<Candidate>> = Vec::new();
    while lists.len() > 0
        invariant
            lists@.len() + parts@.len() == all.len(),
            forall|i: int| 0 <= i < lists@.len() ==> lists@[i] == all[i],
            forall|i: int| 0 <= i < parts@.len() ==> parts@[i] == all[all.len() - 1 - i],
        decreases lists@.len(),
    {
        match lists.pop() {
            Some(list) => {
                parts.push(list);
            },
            None => {},
        }
    }
    let mut out: Vec<Candidate> = Vec::new();
    let ghost mut done: int = 0;
    while parts.len() > 0
        invariant
            0 <= done <= all.len(),
            parts@.len() + done == all.len(),
            forall|i: int| 0 <= i < parts@.len() ==> parts@[i] == all[all.len() - 1 - i],
            out@ == joined_upto(all, done),
        decreases parts@.len(),
    {
        match parts.pop() {
            Some(mut list) => {
                assert(list@ == all[done]@);
                out.append(&mut list);
                proof {
                    done = done + 1;
                }
            },
            None => {},
        }
    }
    out
}

/// What the dispatcher answers with: the file names if there are any
/// (file names come first), else what the other completers found, joined in
/// their order and passed through the funnel.
pub fn dispatch(
    filenames: Vec<Candidate>,
    others: Vec<Vec<Candidate>>,
    request: &SimpleRequest,
    max_candidates: usize,
) -> (r: Vec<Candidate>)
    ensures
        filenames@.len() > 0 ==> r@ == filenames@,
        filenames@.len() == 0 ==> match request.query_model() {
            None => r@.len() == 0,
            Some(query) => is_top_ranked(
                r@,
                joined_upto(others@, others@.len() as int),
                insertion_texts(joined_upto(others@, others@.len() as int)),
                query,
                max_candidates,
            ),
        },
{
    if filenames.len() > 0 {
        filenames
    } else {
        funnel(concatenate(others), request, max_candidates)
    }
}

/// The dispatcher: the completer for file names, and the others in the
/// order in which they are asked.
pub struct GenericCompleters {
    pub completers: Vec<Box<dyn Completer>>,
    pub fname_completer: Box<dyn Completer>,
    pub config: CompletionConfig,
}

impl Completer for GenericCompleters {
    fn get_settings(&self) -> (r: &CompletionConfig)
        ensures
            *r == self.config,
    {
        &self.config
    }

    fn set_settings(&mut self, settings: CompletionConfig)
        ensures
            final(self).config == settings,
    {
        self.config = settings;
    }

    /// Asks the completer for file names first. If it finds nothing, asks
    /// each of the others in order. The answer is what `dispatch` makes of
    /// what they found. Of the request, only the column at which the
    /// completion starts can have changed.
    fn compute_candidates(&self, request: &mut SimpleRequest) -> (r: Vec<Candidate>)
        ensures
            same_but_start(*final(request), *old(request)),
    {
        let filenames = self.fname_completer.compute_candidates(request);
        let mut others: Vec<Vec<Candidate>> = Vec::new();
        if filenames.len() == 0 {
            let mut i: usize = 0;
            while i < self.completers.len()
                invariant
                    i <= self.completers.len(),
                    same_but_start(*request, *old(request)),
                decreases self.completers.len() - i,
            {
                let found = self.completers[i].compute_candidates(request);
                others.push(found);
                i += 1;
            }
        }
        dispatch(filenames, others, request, self.config.max_candidates)
    }

    /// Hands the event to every completer of the list, in order. The
    /// settings, the completer for file names and the number of completers
    /// stay as they are.
    fn on_event(&mut self, event: &EventNotification)
        ensures
            final(self).config == old(self).config,
            final(self).fname_completer == old(self).fname_completer,
            final(self).completers@.len() == old(self).completers@.len(),
    {
        let mut i: usize = 0;
        while i < self.completers.len()
            invariant
                i <= self.completers.len(),
                self.config == old(self).config,
                self.fname_completer == old(self).fname_completer,
                self.completers@.len() == old(self).completers@.len(),
            decreases self.completers.len() - i,
        {
            self.completers[i].on_event(event);
            i += 1;
        }
    }
}

} // verus!
