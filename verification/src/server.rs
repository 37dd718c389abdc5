//! The state of the server: its settings, its completers, and what it
//! answers to each kind of request.

use vstd::prelude::*;
use crate::completer::{
    same_but_start, Completer, CompletionConfig, EventNotification, GenericCompleters,
};
use crate::filename::{FilenameCompleter, Platform};
use crate::pattern::texts_of;
use crate::request::{copy_of, MalformedRequest, SimpleRequest};
use crate::text::same_text;
use crate::trigger::TriggerTable;
use crate::ultisnips::UltisnipsCompleter;
use crate::ycmd_types::{
    Available, Candidate, ClangInfo, CompletionResponse, DebugInfo, DebugInfoResponse,
    DiagnosticData, ExtraInfo, MessagePollResponse, PythonInfo, Subserver,
};

verus! {

/// The settings that the editor writes for the server.
#[derive(Clone, Debug)]
pub struct Options {
    pub hmac_secret: String,
    pub max_num_candidates: usize,
    pub min_num_of_chars_for_completion: usize,
    pub max_num_candidates_to_detail: isize,
    pub max_diagnostics_to_display: usize,
    /// Filetypes for which no file names are offered, each with "1" where
    /// the entry is in force.
    pub filepath_blacklist: Vec<(String, String)>,
    pub filepath_completion_use_working_dir: u8,
}

/// The filetypes, among the first `n` entries of the blacklist, whose entry
/// is in force.
pub open spec fn in_force_upto(entries: Seq<(String, String)>, n: int) -> Seq<Seq<char>>
    decreases n,
{
    if n <= 0 {
        Seq::empty()
    } else if entries[n - 1].1@ == "1"@ {
        in_force_upto(entries, n - 1).push(entries[n - 1].0@)
    } else {
        in_force_upto(entries, n - 1)
    }
}

impl Options {
    /// The settings that the completers share. They start without
    /// triggers.
    pub fn completion_config(&self) -> (r: CompletionConfig)
        ensures
            r.min_num_chars == self.min_num_of_chars_for_completion,
            r.max_diagnostics_to_display == self.max_num_candidates,
            r.max_candidates == self.max_num_candidates,
            r.max_candidates_to_detail == self.max_num_candidates_to_detail,
            r.completion_triggers@.len() == 0,
            r.signature_triggers@.len() == 0,
    {
        CompletionConfig {
            min_num_chars: self.min_num_of_chars_for_completion,
            max_diagnostics_to_display: self.max_num_candidates,
            completion_triggers: TriggerTable::empty(),
            signature_triggers: TriggerTable::empty(),
            max_candidates: self.max_num_candidates,
            max_candidates_to_detail: self.max_num_candidates_to_detail,
        }
    }

    /// The filetypes for which no file names are offered: those whose entry
    /// in the blacklist is "1".
    pub fn filename_blacklist(&self) -> (r: Vec<String>)
        ensures
            texts_of(r@) == in_force_upto(
                self.filepath_blacklist@,
                self.filepath_blacklist@.len() as int,
            ),
    {
        let mut blacklist: Vec<String> = Vec::new();
        let mut i: usize = 0;
        assert(texts_of(blacklist@) =~= in_force_upto(self.filepath_blacklist@, 0));
        while i < self.filepath_blacklist.len()
            invariant
                i <= self.filepath_blacklist.len(),
                texts_of(blacklist@) == in_force_upto(self.filepath_blacklist@, i as int),
            decreases self.filepath_blacklist.len() - i,
        {
            if same_text(self.filepath_blacklist[i].1.as_str(), "1") {
                let ghost before = texts_of(blacklist@);
                blacklist.push(copy_of(self.filepath_blacklist[i].0.as_str()));
                assert(texts_of(blacklist@) =~= before.push(self.filepath_blacklist@[i as int].0@));
            }
            i += 1;
        }
        blacklist
    }

    /// Whether relative paths are meant from the working directory of the
    /// request.
    pub fn uses_working_dir(&self) -> (r: bool)
        ensures
            r == (self.filepath_completion_use_working_dir == 1),
    {
        self.filepath_completion_use_working_dir == 1
    }

    /// The completer for file names that these settings ask for.
    pub fn filename_completer(&self, platform: Platform) -> (r: FilenameCompleter)
        ensures
            r.use_working_dir == (self.filepath_completion_use_working_dir == 1),
            r.platform == platform,
            texts_of(r.blacklist@) == in_force_upto(
                self.filepath_blacklist@,
                self.filepath_blacklist@.len() as int,
            ),
            r.config.max_candidates == self.max_num_candidates,
            r.config.min_num_chars == self.min_num_of_chars_for_completion,
    {
        FilenameCompleter {
            config: self.completion_config(),
            blacklist: self.filename_blacklist(),
            use_working_dir: self.uses_working_dir(),
            platform,
        }
    }
}

/// The settings and the completers of a running server.
pub struct ServerState {
    pub generic_completers: GenericCompleters,
    pub options: Options,
}

/// The answer to a completion request, from what the completers found and
/// the request as they left it. The start column is handed out 1-based.
pub fn completion_response(candidates: Vec<Candidate>, request: &SimpleRequest) -> (r: Result<
    CompletionResponse,
    MalformedRequest,
>)
    ensures
        match r {
            Ok(response) => {
                &&& request.start_model() == Some(response.completion_start_column - 1)
                &&& 1 <= response.completion_start_column <= request.column_num
                &&& response.completions == candidates
                &&& response.errors@.len() == 0
            },
            Err(_) => request.start_model() is None,
        },
{
    match request.start_column() {
        Ok(start) => Ok(
            CompletionResponse {
                completions: candidates,
                completion_start_column: start + 1,
                errors: Vec::new(),
            },
        ),
        Err(e) => Err(e),
    }
}

/// What the server says of itself when asked for debugging information.
pub fn server_debug_info() -> (r: DebugInfo)
    ensures
        r.python.executable@ == "/dev/null"@,
        r.python.version@ == "0"@,
        !r.clang.has_support,
        r.clang.version is None,
        r.extra_conf.path@ == "/dev/null"@,
        !r.extra_conf.is_loaded,
        r.completer.name@ == "Rust YCMD"@,
        r.completer.servers@.len() == 0,
        r.completer.items@.len() == 0,
{
    DebugInfo {
        python: PythonInfo { executable: copy_of("/dev/null"), version: copy_of("0") },
        clang: ClangInfo { has_support: false, version: None },
        extra_conf: ExtraInfo { path: copy_of("/dev/null"), is_loaded: false },
        completer: DebugInfoResponse {
            name: copy_of("Rust YCMD"),
            servers: Vec::new(),
            items: Vec::new(),
        },
    }
}

/// What a poll for messages is answered with when the wait has run out and
/// there is nothing to report.
pub fn nothing_to_report() -> (r: MessagePollResponse)
    ensures
        r == MessagePollResponse::MessagePollResponse(true),
{
    MessagePollResponse::MessagePollResponse(true)
}

impl ServerState {
    /// The state of a server that starts with these settings: the snippet
    /// completer and, for file names, the completer that is handed in.
    pub fn new(options: Options, fname_completer: Box<dyn Completer>) -> (r: Self)
        ensures
            r.options == options,
            r.generic_completers.config.max_candidates == options.max_num_candidates,
            r.generic_completers.config.min_num_chars == options.min_num_of_chars_for_completion,
    {
        let config = options.completion_config();
        let snippets: Box<dyn Completer> = Box::new(UltisnipsCompleter::new(options.completion_config()));
        let mut completers: Vec<Box<dyn Completer>> = Vec::new();
        completers.push(snippets);
        ServerState {
            generic_completers: GenericCompleters { completers, fname_completer, config },
            options,
        }
    }

    /// The server is ready as soon as it runs.
    pub fn is_ready(&self) -> (r: bool)
        ensures
            r,
    {
        true
    }

    /// The server is healthy as long as it runs.
    pub fn is_healthy(&self) -> (r: bool)
        ensures
            r,
    {
        true
    }

    /// The completions for a request. The request is refused exactly if it
    /// does not say where the cursor is: it does not carry its file, the file
    /// has no such line, or the column is not on the line or just behind its
    /// end. Otherwise the answer carries what the completers found, no error,
    /// and the column at which the completion starts, 1-based: the start
    /// column of the request as the completers left it.
    pub fn completions(&self, request: SimpleRequest) -> (r: Result<
        CompletionResponse,
        MalformedRequest,
    >)
        ensures
            r is Err <==> request.cursor_line_model() is None,
            r is Ok ==> r.unwrap().errors@.len() == 0,
            r is Ok ==> 1 <= r.unwrap().completion_start_column <= request.column_num,
            r is Ok ==> exists|after: SimpleRequest|
                #[trigger] same_but_start(after, request) && after.start_model() == Some(
                    r.unwrap().completion_start_column - 1,
                ),
    {
        let mut request = request;
        let candidates = self.generic_completers.compute_candidates(&mut request);
        completion_response(candidates, &request)
    }

    /// What the server says of itself: it has no Python, no Clang, no
    /// extra configuration and no subserver.
    pub fn debug_info(&self, _request: SimpleRequest) -> (r: DebugInfo)
        ensures
            r.python.executable@ == "/dev/null"@,
            r.python.version@ == "0"@,
            !r.clang.has_support,
            r.clang.version is None,
            r.extra_conf.path@ == "/dev/null"@,
            !r.extra_conf.is_loaded,
            r.completer.name@ == "Rust YCMD"@,
            r.completer.servers@.len() == 0,
            r.completer.items@.len() == 0,
    {
        server_debug_info()
    }

    /// The server defines no subcommand.
    pub fn defined_subcommands(&self, _request: SimpleRequest) -> (r: Vec<String>)
        ensures
            r@.len() == 0,
    {
        Vec::new()
    }

    /// The server has no semantic completer.
    pub fn semantic_completer_available(&self, _request: SimpleRequest) -> (r: bool)
        ensures
            !r,
    {
        false
    }

    /// The server offers no signature help.
    pub fn signature_help_available(&self, _request: Subserver) -> (r: Available)
        ensures
            r == Available::NO,
    {
        Available::NO
    }

    /// Hands the event to the completers. There are no diagnostics to
    /// report.
    pub fn event_notification(&mut self, request: EventNotification) -> (r: Vec<DiagnosticData>)
        ensures
            r@.len() == 0,
            final(self).options == old(self).options,
            final(self).generic_completers.config == old(self).generic_completers.config,
            final(self).generic_completers.fname_completer == old(
                self,
            ).generic_completers.fname_completer,
            final(self).generic_completers.completers@.len() == old(
                self,
            ).generic_completers.completers@.len(),
    {
        self.generic_completers.on_event(&request);
        Vec::new()
    }

    /// What a poll for messages is answered with once the wait is over.
    pub fn get_messages(&self, _request: SimpleRequest) -> (r: MessagePollResponse)
        ensures
            r == MessagePollResponse::MessagePollResponse(true),
    {
        nothing_to_report()
    }
}

} // verus!
