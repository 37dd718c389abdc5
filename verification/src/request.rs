//! A completion request, and what is derived from it: the current line, the
//! column at which the token under the cursor starts, the query and the
//! prefix.

use vstd::prelude::*;
use crate::identifier::{
    filetype_text, identifier_start, start_of_longest_identifier_ending_at_index,
};
use crate::pattern::texts_of;
use crate::text::{byte_len, byte_length, byte_slice, lemma_ends_are_boundaries, on_boundary, same_text, slice};
use crate::ycmd_types::{CompleterTarget, FileData};

verus! {

/// A JSON value, `serde_json::Value`: extra configuration that the editor
/// sends along. The server hands it on and never looks inside.
#[verifier::external_type_specification]
#[verifier::external_body]
pub struct ExJsonValue(serde_json::Value);

/// The request does not describe a place in a file that it carries.
#[derive(Clone, Copy, Debug, PartialEq, Eq, Structural)]
pub struct MalformedRequest;

/// The lines of a text. A line ends at a line feed, or at a carriage return
/// followed by one; the last line needs no ending.
pub uninterp spec fn lines_of(text: Seq<char>) -> Seq<Seq<char>>;

/// Calls `str::lines` and copies each line out. Not proved: that the lines
/// are `lines_of`.
#[verifier::external_body]
pub(crate) fn lines(text: &str) -> (r: Vec<String>)
    ensures
        texts_of(r@) == lines_of(text@),
{
    text.lines().map(String::from).collect()
}

/// What the editor asks: where the cursor is, in which file, and what the
/// open files hold.
#[derive(Clone, Debug)]
pub struct SimpleRequest {
    /// 1-based line number
    pub line_num: usize,
    /// 1-based byte offset
    pub column_num: usize,
    pub filepath: String,
    /// The open files, each under its path. Where a path occurs twice the
    /// first entry counts.
    pub file_data: Vec<(String, FileData)>,
    pub completer_target: Option<CompleterTarget>,
    pub working_dir: Option<String>,
    pub extra_conf_data: Option<serde_json::Value>,
    /// Where a completer has found that the token to complete starts: a
    /// byte offset into the current line that takes the place of the start of
    /// the identifier under the cursor.
    pub start_column: Option<usize>,
}

/// The data of the first entry, from position `i` on, that stands under the
/// path.
pub open spec fn find_file(entries: Seq<(String, FileData)>, path: Seq<char>, i: int) -> Option<
    FileData,
>
    decreases entries.len() - i,
{
    if i < 0 || i >= entries.len() {
        None
    } else if entries[i].0@ == path {
        Some(entries[i].1)
    } else {
        find_file(entries, path, i + 1)
    }
}

/// The text of the first filetype of a list.
pub open spec fn first_text(filetypes: Seq<String>) -> Option<Seq<char>> {
    if filetypes.len() > 0 {
        Some(filetypes[0]@)
    } else {
        None
    }
}

impl SimpleRequest {
    /// The data of the file that the request is about.
    pub open spec fn file_model(&self) -> Option<FileData> {
        find_file(self.file_data@, self.filepath@, 0)
    }

    /// The filetypes of the file; none if the request does not carry it.
    pub open spec fn filetypes_model(&self) -> Seq<String> {
        match self.file_model() {
            Some(f) => f.filetypes@,
            None => Seq::empty(),
        }
    }

    /// The lines of the file.
    pub open spec fn lines_model(&self) -> Option<Seq<Seq<char>>> {
        match self.file_model() {
            Some(f) => Some(lines_of(f.contents@)),
            None => None,
        }
    }

    /// The line under the cursor, if the file has that line.
    pub open spec fn line_model(&self) -> Option<Seq<char>> {
        match self.lines_model() {
            Some(lines) => if 1 <= self.line_num <= lines.len() {
                Some(lines[self.line_num - 1])
            } else {
                None
            },
            None => None,
        }
    }

    /// The line under the cursor, if the cursor is on it or just behind its
    /// end.
    pub open spec fn cursor_line_model(&self) -> Option<Seq<char>> {
        match self.line_model() {
            Some(line) => if 1 <= self.column_num <= byte_len(line) + 1 {
                Some(line)
            } else {
                None
            },
            None => None,
        }
    }

    /// Where the token under the cursor starts in `line`: where a completer
    /// said, if that is a character boundary at or before the cursor; else
    /// where the longest identifier that ends at the cursor starts.
    pub open spec fn start_in(&self, line: Seq<char>) -> int {
        let index = self.column_num - 1;
        match self.start_column {
            Some(s) if s <= index && on_boundary(line, s as int) => s as int,
            _ => identifier_start(line, index, first_text(self.filetypes_model())),
        }
    }

    /// The byte offset at which the token under the cursor starts.
    pub open spec fn start_model(&self) -> Option<int> {
        match self.cursor_line_model() {
            Some(line) => Some(self.start_in(line)),
            None => None,
        }
    }

    /// The line under the cursor, if the cursor is at a character boundary
    /// of it.
    pub open spec fn sliceable_line_model(&self) -> Option<Seq<char>> {
        match self.cursor_line_model() {
            Some(line) => if on_boundary(line, self.column_num - 1) {
                Some(line)
            } else {
                None
            },
            None => None,
        }
    }

    /// The token under the cursor: the line from the start column to the
    /// cursor.
    pub open spec fn query_model(&self) -> Option<Seq<char>> {
        match self.sliceable_line_model() {
            Some(line) => Some(byte_slice(line, self.start_in(line), self.column_num - 1)),
            None => None,
        }
    }

    /// The line up to the start column.
    pub open spec fn prefix_model(&self) -> Option<Seq<char>> {
        match self.sliceable_line_model() {
            Some(line) => Some(byte_slice(line, 0, self.start_in(line))),
            None => None,
        }
    }

    /// The data of the file that the request is about, if the request
    /// carries it.
    pub fn file(&self) -> (r: Option<&FileData>)
        ensures
            match r {
                Some(f) => self.file_model() == Some(*f),
                None => self.file_model() is None,
            },
    {
        let mut i: usize = 0;
        while i < self.file_data.len()
            invariant
                i <= self.file_data.len(),
                self.file_model() == find_file(self.file_data@, self.filepath@, i as int),
            decreases self.file_data.len() - i,
        {
            if same_text(self.file_data[i].0.as_str(), self.filepath.as_str()) {
                return Some(&self.file_data[i].1);
            }
            i += 1;
        }
        None
    }

    /// The lines of the file. Fails if the request does not carry the file.
    pub fn lines(&self) -> (r: Result<Vec<String>, MalformedRequest>)
        ensures
            match r {
                Ok(lines) => self.lines_model() == Some(texts_of(lines@)),
                Err(_) => self.lines_model() is None,
            },
    {
        match self.file() {
            Some(f) => Ok(lines(f.contents.as_str())),
            None => Err(MalformedRequest),
        }
    }

    /// The filetypes of the file; none if the request does not carry it.
    pub fn filetypes(&self) -> (r: &[String])
        ensures
            r@ == self.filetypes_model(),
    {
        match self.file() {
            Some(f) => f.filetypes.as_slice(),
            None => &[],
        }
    }

    /// The first filetype of the file.
    pub fn first_filetype(&self) -> (r: Option<&str>)
        ensures
            filetype_text(r) == first_text(self.filetypes_model()),
    {
        let filetypes = self.filetypes();
        if filetypes.len() > 0 {
            Some(filetypes[0].as_str())
        } else {
            None
        }
    }

    /// The line under the cursor. Fails if the request does not carry the
    /// file or the file has no such line.
    pub fn line_value(&self) -> (r: Result<String, MalformedRequest>)
        ensures
            match r {
                Ok(line) => self.line_model() == Some(line@),
                Err(_) => self.line_model() is None,
            },
    {
        match self.lines() {
            Ok(lines) => {
                if 1 <= self.line_num && self.line_num <= lines.len() {
                    assert(texts_of(lines@)[self.line_num - 1] == lines@[self.line_num - 1]@);
                    Ok(lines[self.line_num - 1].clone())
                } else {
                    assert(texts_of(lines@).len() == lines@.len());
                    Err(MalformedRequest)
                }
            },
            Err(e) => Err(e),
        }
    }

    /// The line under the cursor. Fails where `line_value` fails, and if
    /// the cursor is not on the line or just behind its end.
    pub fn cursor_line(&self) -> (r: Result<String, MalformedRequest>)
        ensures
            match r {
                Ok(line) => self.cursor_line_model() == Some(line@),
                Err(_) => self.cursor_line_model() is None,
            },
    {
        match self.line_value() {
            Ok(line) => {
                let len = byte_length(line.as_str());
                if 1 <= self.column_num && self.column_num - 1 <= len {
                    Ok(line)
                } else {
                    Err(MalformedRequest)
                }
            },
            Err(e) => Err(e),
        }
    }

    /// Where the token under the cursor starts in the given line.
    pub fn start_column_in(&self, line: &str) -> (r: usize)
        requires
            1 <= self.column_num <= byte_len(line@) + 1,
        ensures
            r == self.start_in(line@),
            r <= self.column_num - 1,
            on_boundary(line@, self.column_num - 1) ==> on_boundary(line@, r as int),
    {
        let index = self.column_num - 1;
        match self.start_column {
            Some(s) => {
                if s <= index && line.is_char_boundary(s) {
                    return s;
                }
            },
            None => {},
        }
        start_of_longest_identifier_ending_at_index(line, index, self.first_filetype())
    }

    /// The byte offset into the current line at which the token under the
    /// cursor starts. Fails where `cursor_line` fails.
    pub fn start_column(&self) -> (r: Result<usize, MalformedRequest>)
        ensures
            match r {
                Ok(start) => self.start_model() == Some(start as int) && start < self.column_num,
                Err(_) => self.start_model() is None,
            },
    {
        match self.cursor_line() {
            Ok(line) => Ok(self.start_column_in(line.as_str())),
            Err(e) => Err(e),
        }
    }

    /// The token under the cursor. Fails where `cursor_line` fails, and if
    /// the cursor stands inside a character.
    pub fn query(&self) -> (r: Result<String, MalformedRequest>)
        ensures
            match r {
                Ok(query) => self.query_model() == Some(query@),
                Err(_) => self.query_model() is None,
            },
    {
        match self.cursor_line() {
            Ok(line) => {
                let index = self.column_num - 1;
                if !line.as_str().is_char_boundary(index) {
                    return Err(MalformedRequest);
                }
                let start = self.start_column_in(line.as_str());
                Ok(copy_of(slice(line.as_str(), start, index)))
            },
            Err(e) => Err(e),
        }
    }

    /// The line up to the token under the cursor. Fails where `query`
    /// fails.
    pub fn prefix(&self) -> (r: Result<String, MalformedRequest>)
        ensures
            match r {
                Ok(prefix) => self.prefix_model() == Some(prefix@),
                Err(_) => self.prefix_model() is None,
            },
    {
        match self.cursor_line() {
            Ok(line) => {
                let index = self.column_num - 1;
                if !line.as_str().is_char_boundary(index) {
                    return Err(MalformedRequest);
                }
                let start = self.start_column_in(line.as_str());
                proof {
                    lemma_ends_are_boundaries(line@);
                }
                Ok(copy_of(slice(line.as_str(), 0, start)))
            },
            Err(e) => Err(e),
        }
    }
}

/// The prefix and the query, one after the other, are the line up to the
/// cursor.
pub proof fn lemma_prefix_then_query(request: SimpleRequest)
    requires
        request.sliceable_line_model() is Some,
    ensures
        request.prefix_model().unwrap() + request.query_model().unwrap() == byte_slice(
            request.sliceable_line_model().unwrap(),
            0,
            request.column_num - 1,
        ),
{
    let line = request.sliceable_line_model().unwrap();
    lemma_ends_are_boundaries(line);
    crate::identifier::lemma_first_start_from(
        line,
        request.column_num - 1,
        first_text(request.filetypes_model()),
        0,
    );
    crate::text::lemma_slice_of_parts(line, 0, request.start_in(line), request.column_num - 1);
}

/// An owned copy of a piece of text.
pub fn copy_of(text: &str) -> (r: String)
    ensures
        r@ == text@,
{
    let mut r = String::new();
    vstd::string::StringExecFns::append(&mut r, text);
    assert(r@ =~= text@);
    r
}

} // verus!
