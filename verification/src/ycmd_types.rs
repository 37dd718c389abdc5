//! The values that travel between an editor and the server.

use vstd::prelude::*;
pub use crate::completer::EventNotification;
pub use crate::request::{MalformedRequest, SimpleRequest};

verus! {

/// A position in a file.
#[derive(Clone, Debug)]
pub struct Location {
    pub line_num: usize,
    pub column_num: usize,
    pub filepath: String,
}

/// What the editor knows of one open file.
#[derive(Clone, Debug)]
pub struct FileData {
    pub filetypes: Vec<String>,
    pub contents: String,
}

/// What happened in the editor.
#[derive(Clone, Copy, Debug, PartialEq, Eq, Structural)]
pub enum Event {
    FileReadyToParse,
    BufferUnload,
    BufferVisit,
    InsertLeave,
    CurrentIdentifierFinished,
}

/// A snippet that the editor offers.
#[derive(Clone, Debug)]
pub struct UltisnipSnippet {
    pub trigger: String,
    pub description: String,
}

/// A stretch of a file.
#[derive(Clone, Debug)]
pub struct Range {
    pub start: Location,
    pub end: Location,
}

#[derive(Clone, Debug)]
pub struct FixitChunk {
    pub replacement_string: String,
    pub range: Range,
}

#[derive(Clone, Debug)]
pub struct Fixit {
    pub text: String,
    pub location: Location,
    pub resolve: bool,
    pub kind: String,
    pub chunks: Vec<FixitChunk>,
}

#[derive(Clone, Debug)]
pub struct CandidateExtraData {
    pub doc_string: String,
    pub fixits: Vec<Fixit>,
    pub resolve: Option<usize>,
}

/// A set of candidates to rank outside of a completion.
#[derive(Clone, Debug)]
pub struct FilterAndSortRequest {
    /// The candidates: texts, or objects that hold their text under the
    /// sort property.
    pub candidates: Vec<serde_json::Value>,
    pub sort_property: String,
    pub query: String,
}

/// A completion as it is handed to the editor.
#[derive(Clone, Debug)]
pub struct Candidate {
    pub insertion_text: String,
    pub menu_text: Option<String>,
    pub extra_menu_info: Option<String>,
    pub detailed_info: Option<String>,
    pub kind: Option<String>,
    pub extra_data: Option<CandidateExtraData>,
}

/// Which completer the editor asks for.
#[allow(non_camel_case_types)]
#[derive(Clone, Debug)]
pub enum CompleterTarget {
    filetype_default,
    identifier,
    filetype(String),
}

#[derive(Clone, Debug)]
pub struct Exception {
    pub message: String,
}

#[derive(Clone, Debug)]
pub struct ExceptionResponse {
    pub exception: Exception,
    pub message: String,
    pub traceback: String,
}

/// The answer to a completion request.
#[derive(Clone, Debug)]
pub struct CompletionResponse {
    pub completions: Vec<Candidate>,
    pub completion_start_column: usize,
    pub errors: Vec<ExceptionResponse>,
}

#[derive(Clone, Debug)]
pub struct ItemData {
    pub key: String,
    pub value: String,
}

#[derive(Clone, Debug)]
pub struct ServerData {
    pub name: String,
    pub is_running: bool,
    pub executable: String,
    pub address: String,
    pub port: usize,
    pub pid: usize,
    pub logfiles: Vec<String>,
    pub extras: Vec<ItemData>,
}

#[derive(Clone, Debug)]
pub struct DebugInfoResponse {
    pub name: String,
    pub servers: Vec<ServerData>,
    pub items: Vec<ItemData>,
}

#[derive(Clone, Debug)]
pub struct PythonInfo {
    pub executable: String,
    pub version: String,
}

#[derive(Clone, Debug)]
pub struct ClangInfo {
    pub has_support: bool,
    pub version: Option<String>,
}

#[derive(Clone, Debug)]
pub struct ExtraInfo {
    pub path: String,
    pub is_loaded: bool,
}

#[derive(Clone, Debug)]
pub struct DebugInfo {
    pub python: PythonInfo,
    pub clang: ClangInfo,
    pub extra_conf: ExtraInfo,
    pub completer: DebugInfoResponse,
}

#[derive(Clone, Copy, Debug, PartialEq, Eq, Structural)]
pub enum DiagnosticKind {
    WARNING,
    ERROR,
    INFORMATION,
    HINT,
}

#[derive(Clone, Debug)]
pub struct DiagnosticData {
    pub ranges: Vec<Range>,
    pub location: Location,
    pub location_extent: Range,
    pub test: String,
    pub kind: DiagnosticKind,
    pub fixit_available: bool,
}

#[derive(Clone, Debug)]
pub struct DiagnosticMessage {
    pub filepath: String,
    pub diagnostics: Vec<DiagnosticData>,
}

#[derive(Clone, Copy, Debug, PartialEq, Eq, Structural)]
pub enum Available {
    YES,
    NO,
    PENDING,
}

#[derive(Clone, Debug)]
pub struct Subserver {
    pub subserver: String,
}

#[derive(Clone, Debug)]
pub struct SimpleMessage {
    pub message: String,
}

#[derive(Clone, Debug)]
pub enum Message {
    SimpleMessage(SimpleMessage),
    Diagnostics(DiagnosticMessage),
}

/// The answer to a poll for messages: `true` where there was nothing to
/// report, a message otherwise.
#[derive(Clone, Debug)]
pub enum MessagePollResponse {
    MessagePollResponse(bool),
    Message(Message),
}

impl Candidate {
    /// A completion that only says what to insert.
    pub fn plain(insertion_text: String) -> (r: Candidate)
        ensures
            r.insertion_text == insertion_text,
            r.menu_text is None,
            r.extra_menu_info is None,
            r.detailed_info is None,
            r.kind is None,
            r.extra_data is None,
    {
        Candidate {
            insertion_text,
            menu_text: None,
            extra_menu_info: None,
            detailed_info: None,
            kind: None,
            extra_data: None,
        }
    }
}

} // verus!
