//! Completion of file names: finding the path that the text before the
//! cursor spells, and offering what that directory holds.

use vstd::prelude::*;
use vstd::string::StringSliceAdditionalSpecFns;
use crate::completer::{funnel, insertion_texts, CompletionConfig};
use crate::filter::is_top_ranked;
use crate::pattern::{
    all_matches_of, find_all, find_first, first_match_of, span_fits, spans_in_sequence, texts_of,
};
use crate::request::{copy_of, SimpleRequest};
use crate::text::{byte_len, byte_slice, lemma_ends_are_boundaries, on_boundary, slice};
use crate::trigger::contains_text;
use crate::ycmd_types::Candidate;

verus! {

/// What kind of thing a directory entry is.
#[derive(Clone, Copy, Debug, PartialEq, Eq, Structural)]
pub enum FileType {
    File,
    Dir,
    FileAndDir,
    Framework,
    FileAndFramework,
    DirAndFramework,
    FileAndDirAndFramework,
}

impl FileType {
    /// The label under which the editor shows the kind.
    pub open spec fn label(self) -> Seq<char> {
        match self {
            FileType::File => "[File]"@,
            FileType::Dir => "[Dir]"@,
            FileType::FileAndDir => "[File&Dir]"@,
            FileType::Framework => "[Framework]"@,
            FileType::FileAndFramework => "[File&Framework]"@,
            FileType::DirAndFramework => "[Dir&Framework]"@,
            FileType::FileAndDirAndFramework => "[File&Dir&Framework]"@,
        }
    }

    /// The label under which the editor shows the kind.
    pub fn to_string(&self) -> (r: String)
        ensures
            r@ == self.label(),
    {
        match self {
            FileType::File => copy_of("[File]"),
            FileType::Dir => copy_of("[Dir]"),
            FileType::FileAndDir => copy_of("[File&Dir]"),
            FileType::Framework => copy_of("[Framework]"),
            FileType::FileAndFramework => copy_of("[File&Framework]"),
            FileType::DirAndFramework => copy_of("[Dir&Framework]"),
            FileType::FileAndDirAndFramework => copy_of("[File&Dir&Framework]"),
        }
    }
}

/// The conventions for writing paths.
#[derive(Clone, Copy, Debug, PartialEq, Eq, Structural)]
pub enum Platform {
    Posix,
    Windows,
}

pub const POSIX_SEPARATORS: &'static str = "/";

pub const WINDOWS_SEPARATORS: &'static str = "/\\";

// A separator with what follows it up to the next one, or a separator at
// the very end.
pub const POSIX_SEPARATOR_PATTERN: &'static str = r"([/][^/]*|[/]$)";

pub const WINDOWS_SEPARATOR_PATTERN: &'static str = r"([/\\][^/\\]*|[/\\]$)";

// ".", "..", "~" or an environment variable.
pub const POSIX_HEAD_PATTERN: &'static str = r#"\.{1,2}|~|\$[^$]+"#;

// The same, a drive letter, or an environment variable between percent
// signs.
pub const WINDOWS_HEAD_PATTERN: &'static str = r#"\.{1,2}|~|\$[^$]+|[A-Za-z]:|%[^%]+%"#;

impl Platform {
    /// The characters that separate the parts of a path.
    pub open spec fn separators_model(self) -> Seq<char> {
        match self {
            Platform::Posix => POSIX_SEPARATORS@,
            Platform::Windows => WINDOWS_SEPARATORS@,
        }
    }

    /// The pattern that finds the separators of a line.
    pub open spec fn separator_pattern_model(self) -> Seq<char> {
        match self {
            Platform::Posix => POSIX_SEPARATOR_PATTERN@,
            Platform::Windows => WINDOWS_SEPARATOR_PATTERN@,
        }
    }

    /// The pattern of what a path can start with, besides a name.
    pub open spec fn head_model(self) -> Seq<char> {
        match self {
            Platform::Posix => POSIX_HEAD_PATTERN@,
            Platform::Windows => WINDOWS_HEAD_PATTERN@,
        }
    }

    /// The characters that separate the parts of a path.
    pub fn separators(self) -> (r: &'static str)
        ensures
            r@ == self.separators_model(),
    {
        match self {
            Platform::Posix => POSIX_SEPARATORS,
            Platform::Windows => WINDOWS_SEPARATORS,
        }
    }

    /// The pattern that finds the separators of a line.
    pub fn separator_pattern(self) -> (r: &'static str)
        ensures
            r@ == self.separator_pattern_model(),
    {
        match self {
            Platform::Posix => POSIX_SEPARATOR_PATTERN,
            Platform::Windows => WINDOWS_SEPARATOR_PATTERN,
        }
    }

    /// The pattern of what a path can start with, besides a name.
    pub fn head(self) -> (r: &'static str)
        ensures
            r@ == self.head_model(),
    {
        match self {
            Platform::Posix => POSIX_HEAD_PATTERN,
            Platform::Windows => WINDOWS_HEAD_PATTERN,
        }
    }

    /// Whether a byte is a separator.
    pub fn is_separator(self, byte: u8) -> (r: bool)
        ensures
            r == (byte == 47 || (self == Platform::Windows && byte == 92)),
    {
        byte == 47 || (self == Platform::Windows && byte == 92)
    }
}

/// What a directory entry turned out to be when it was looked at.
#[derive(Clone, Copy, Debug, PartialEq, Eq, Structural)]
pub enum EntryKind {
    Dir,
    File,
    /// Neither a directory nor a plain file, or it could not be told.
    Unknown,
}

/// An entry of a directory.
#[derive(Clone, Debug)]
pub struct DirEntry {
    pub name: String,
    pub kind: EntryKind,
}

/// A path to look for on disk.
#[derive(Clone, Debug)]
pub struct PathProbe {
    /// The path as it stands on the line, variables and `~` not yet
    /// expanded.
    pub text: String,
    /// The path starts with a head (".", "~", a variable, a name of the
    /// working directory): if it is relative once expanded, it is meant from
    /// the working directory.
    pub from_working_dir: bool,
}

/// What to look for to find the path that a line spells before the cursor.
#[derive(Clone, Debug)]
pub struct SearchPlan {
    /// The paths to look for, in this order; the first that exists is the
    /// one.
    pub probes: Vec<PathProbe>,
    /// The column at which the completion starts: just behind the last
    /// separator.
    pub start_column: usize,
    /// If none of the paths exists, the root directory is the one.
    pub root_if_none: bool,
}

/// What a search found.
#[derive(Clone, Copy, Debug, PartialEq, Eq, Structural)]
pub enum Found {
    /// The probe at this position exists.
    Probe(usize),
    /// No probe exists, and the root directory stands in.
    Root,
}

/// Completes file names.
#[derive(Clone, Debug)]
pub struct FilenameCompleter {
    pub config: CompletionConfig,
    /// The filetypes in which no file names are offered; `*` stands for
    /// all.
    pub blacklist: Vec<String>,
    pub use_working_dir: bool,
    pub platform: Platform,
}

/// The kind under which an entry is offered.
pub open spec fn file_type_of(kind: EntryKind) -> FileType {
    match kind {
        EntryKind::Dir => FileType::Dir,
        EntryKind::File => FileType::File,
        EntryKind::Unknown => FileType::FileAndDir,
    }
}

/// The candidate offers the entry: it inserts the name and shows the kind.
pub open spec fn offers(candidate: Candidate, entry: DirEntry) -> bool {
    &&& candidate.insertion_text@ == entry.name@
    &&& candidate.extra_menu_info is Some
    &&& candidate.extra_menu_info.unwrap()@ == file_type_of(entry.kind).label()
    &&& candidate.menu_text is None
    &&& candidate.detailed_info is None
    &&& candidate.kind is None
    &&& candidate.extra_data is None
}

/// The pattern of the heads of a path, from the first `n` names of the
/// working directory: the platform's heads and the names, as alternatives.
pub open spec fn head_alternatives(platform: Platform, names: Seq<Seq<char>>, n: int) -> Seq<char>
    decreases n,
{
    if n <= 0 {
        platform.head_model()
    } else {
        head_alternatives(platform, names, n - 1) + "|"@ + names[n - 1]
    }
}

/// The pattern that finds a head at the end of a text.
pub open spec fn head_pattern_of(platform: Platform, names: Seq<Seq<char>>) -> Seq<char> {
    "("@ + head_alternatives(platform, names, names.len() as int) + ")$"@
}

/// Some byte of the span of the line is no separator.
pub open spec fn names_something(platform: Platform, line: Seq<u8>, from: int, to: int) -> bool {
    exists|i: int|
        from <= i < to && !(#[trigger] line[i] == 47 || (platform == Platform::Windows && line[i]
            == 92))
}

/// The probe, if any, that the separator `m` gives, for a path that ends at
/// byte `end`, where `head` is the head found just before the separator: from
/// the head, if there is one; else from the separator itself, if anything but
/// separators lies between it and `end`.
pub open spec fn probe_given(
    platform: Platform,
    prefix: Seq<char>,
    head: Option<(usize, usize)>,
    m: (usize, usize),
    end: int,
) -> Option<(Seq<char>, bool)> {
    match head {
        Some(head) => if head.0 <= end {
            Some((byte_slice(prefix, head.0 as int, end), true))
        } else {
            None
        },
        None => if m.0 <= end && names_something(
            platform,
            vstd::utf8::encode_utf8(prefix),
            m.0 as int,
            end,
        ) {
            Some((byte_slice(prefix, m.0 as int, end), false))
        } else {
            None
        },
    }
}

/// The probe, if any, that the separator `m` gives, for a path that ends at
/// byte `end`. The head is looked for at the end of the text before the
/// separator.
pub open spec fn probe_of(
    platform: Platform,
    prefix: Seq<char>,
    head_pattern: Seq<char>,
    m: (usize, usize),
    end: int,
) -> Option<(Seq<char>, bool)> {
    probe_given(
        platform,
        prefix,
        first_match_of(head_pattern, byte_slice(prefix, 0, m.0 as int)),
        m,
        end,
    )
}

/// What a probe holds, if there is one.
pub open spec fn probe_model(probe: Option<PathProbe>) -> Option<(Seq<char>, bool)> {
    match probe {
        Some(p) => Some((p.text@, p.from_working_dir)),
        None => None,
    }
}

/// The probes that the first `n` separators give.
pub open spec fn probes_upto(
    platform: Platform,
    prefix: Seq<char>,
    head_pattern: Seq<char>,
    separators: Seq<(usize, usize)>,
    end: int,
    n: int,
) -> Seq<(Seq<char>, bool)>
    decreases n,
{
    if n <= 0 {
        Seq::empty()
    } else {
        let before = probes_upto(platform, prefix, head_pattern, separators, end, n - 1);
        match probe_of(platform, prefix, head_pattern, separators[n - 1], end) {
            Some(probe) => before.push(probe),
            None => before,
        }
    }
}

/// The probes of a plan, as texts.
pub open spec fn probes_of(probes: Seq<PathProbe>) -> Seq<(Seq<char>, bool)> {
    Seq::new(probes.len(), |i: int| (probes[i].text@, probes[i].from_working_dir))
}

/// The first position, from `i` on, at which the flag is set; the length if
/// there is none.
pub open spec fn first_set(flags: Seq<bool>, i: int) -> int
    decreases flags.len() - i,
{
    if i < 0 || i >= flags.len() {
        flags.len() as int
    } else if flags[i] {
        i
    } else {
        first_set(flags, i + 1)
    }
}

impl FilenameCompleter {
    /// A completer for paths written the POSIX way.
    pub fn new(config: CompletionConfig, blacklist: Vec<String>, use_working_dir: bool) -> (r: Self)
        ensures
            r.config == config,
            r.blacklist == blacklist,
            r.use_working_dir == use_working_dir,
            r.platform == Platform::Posix,
    {
        FilenameCompleter { config, blacklist, use_working_dir, platform: Platform::Posix }
    }

    /// The directory that relative paths are meant from: the working
    /// directory of the request if the completer is set to use it, else the
    /// directory of the file; where that one is not known, the current
    /// directory.
    pub fn working_directory(
        &self,
        working_dir: &Option<String>,
        file_dir: &Option<String>,
        current_dir: &str,
    ) -> (r: String)
        ensures
            r@ == match (if self.use_working_dir {
                *working_dir
            } else {
                *file_dir
            }) {
                Some(dir) => dir@,
                None => current_dir@,
            },
    {
        let chosen = if self.use_working_dir {
            working_dir
        } else {
            file_dir
        };
        match chosen {
            Some(dir) => copy_of(dir.as_str()),
            None => copy_of(current_dir),
        }
    }

    /// No file names are offered for these filetypes: the blacklist holds
    /// `*` or one of them.
    pub fn current_filetype_completion_disabled(&self, filetypes: &[String]) -> (r: bool)
        ensures
            r == (texts_of(self.blacklist@).contains("*"@) || exists|i: int|
                0 <= i < filetypes@.len() && texts_of(self.blacklist@).contains(
                    #[trigger] filetypes@[i]@,
                )),
    {
        if contains_text(&self.blacklist, "*") {
            return true;
        }
        let mut i: usize = 0;
        while i < filetypes.len()
            invariant
                i <= filetypes.len(),
                forall|j: int|
                    0 <= j < i ==> !texts_of(self.blacklist@).contains(#[trigger] filetypes@[j]@),
            decreases filetypes.len() - i,
        {
            if contains_text(&self.blacklist, filetypes[i].as_str()) {
                return true;
            }
            i += 1;
        }
        false
    }

    /// The pattern that finds, at the end of a text, what a path can start
    /// with: a head of the platform or one of the names of the working
    /// directory.
    pub fn get_dir_head_regex(&self, names: &Vec<String>) -> (r: String)
        ensures
            r@ == head_pattern_of(self.platform, texts_of(names@)),
    {
        let ghost all = texts_of(names@);
        let mut alternatives = copy_of(self.platform.head());
        let mut i: usize = 0;
        while i < names.len()
            invariant
                i <= names.len(),
                all == texts_of(names@),
                alternatives@ == head_alternatives(self.platform, all, i as int),
            decreases names.len() - i,
        {
            vstd::string::StringExecFns::append(&mut alternatives, "|");
            vstd::string::StringExecFns::append(&mut alternatives, names[i].as_str());
            assert(all[i as int] == names@[i as int]@);
            i += 1;
        }
        let mut r = copy_of("(");
        vstd::string::StringExecFns::append(&mut r, alternatives.as_str());
        vstd::string::StringExecFns::append(&mut r, ")$");
        r
    }

    /// Whether some byte of the span of the line is no separator.
    pub fn has_name(&self, line: &str, from: usize, to: usize) -> (r: bool)
        requires
            from <= to <= byte_len(line@),
        ensures
            r == names_something(self.platform, line.spec_bytes(), from as int, to as int),
    {
        let bytes = line.as_bytes();
        let mut i: usize = from;
        while i < to
            invariant
                from <= i <= to <= bytes@.len(),
                bytes@ == line.spec_bytes(),
                forall|j: int|
                    from <= j < i ==> (#[trigger] bytes@[j] == 47 || (self.platform
                        == Platform::Windows && bytes@[j] == 92)),
            decreases to - i,
        {
            if !self.platform.is_separator(bytes[i]) {
                return true;
            }
            i += 1;
        }
        false
    }

    /// The probe that a separator gives, from the head that was found just
    /// before it.
    pub fn probe_for(
        &self,
        prefix: &str,
        m: (usize, usize),
        head: Option<(usize, usize)>,
        end: usize,
    ) -> (r: Option<PathProbe>)
        requires
            on_boundary(prefix@, m.0 as int),
            on_boundary(prefix@, end as int),
            head is Some ==> on_boundary(prefix@, head.unwrap().0 as int),
        ensures
            probe_model(r) == probe_given(self.platform, prefix@, head, m, end as int),
    {
        match head {
            Some(head) => {
                if head.0 <= end {
                    let text = copy_of(slice(prefix, head.0, end));
                    Some(PathProbe { text, from_working_dir: true })
                } else {
                    None
                }
            },
            None => {
                if m.0 <= end && self.has_name(prefix, m.0, end) {
                    let text = copy_of(slice(prefix, m.0, end));
                    Some(PathProbe { text, from_working_dir: false })
                } else {
                    None
                }
            },
        }
    }

    /// What to look for on disk to find the path that the text before the
    /// cursor spells. `names` are the entries of the working directory.
    /// `None` if the text holds no separator. The path ends at the last
    /// separator; each separator before it may be where the path starts.
    pub fn plan_search(&self, prefix: &str, names: &Vec<String>) -> (r: Option<SearchPlan>)
        requires
            byte_len(prefix@) < usize::MAX,
        ensures
            ({
                let separators = all_matches_of(self.platform.separator_pattern_model(), prefix@);
                let head_pattern = head_pattern_of(self.platform, texts_of(names@));
                match r {
                    None => separators.len() == 0,
                    Some(plan) => {
                        let end = separators.last().0;
                        &&& separators.len() > 0
                        &&& plan.start_column == end + 1
                        &&& plan.root_if_none == (separators.len() == 1)
                        &&& probes_of(plan.probes@) == probes_upto(
                            self.platform,
                            prefix@,
                            head_pattern,
                            separators,
                            end as int,
                            separators.len() - 1,
                        )
                    },
                }
            }),
    {
        let separators = find_all(self.platform.separator_pattern(), prefix);
        if separators.len() == 0 {
            return None;
        }
        let head_pattern = self.get_dir_head_regex(names);
        let count = separators.len();
        let end = separators[count - 1].0;
        assert(span_fits(separators@[count - 1], prefix));
        let mut probes: Vec<PathProbe> = Vec::new();
        let mut i: usize = 0;
        proof {
            lemma_ends_are_boundaries(prefix@);
        }
        while i < count - 1
            invariant
                i <= count - 1,
                count == separators@.len(),
                end == separators@[count - 1].0,
                spans_in_sequence(separators@, prefix),
                on_boundary(prefix@, 0),
                on_boundary(prefix@, end as int),
                head_pattern@ == head_pattern_of(self.platform, texts_of(names@)),
                probes_of(probes@) == probes_upto(
                    self.platform,
                    prefix@,
                    head_pattern@,
                    separators@,
                    end as int,
                    i as int,
                ),
            decreases count - 1 - i,
        {
            let m = separators[i];
            assert(span_fits(separators@[i as int], prefix));
            let ghost before = probes_of(probes@);
            let head = find_first(head_pattern.as_str(), slice(prefix, 0, m.0));
            proof {
                if head is Some {
                    lemma_head_on_boundary(prefix@, m.0 as int, head.unwrap());
                }
            }
            match self.probe_for(prefix, m, head, end) {
                Some(probe) => {
                    probes.push(probe);
                    assert(probes_of(probes@) =~= before.push(
                        probe_of(self.platform, prefix@, head_pattern@, m, end as int).unwrap(),
                    ));
                },
                None => {},
            }
            i += 1;
        }
        Some(SearchPlan { probes, start_column: end + 1, root_if_none: count == 1 })
    }

    /// What the search found, from whether each probe of the plan exists:
    /// the first probe that exists, else the root if the plan says so.
    pub fn pick(plan: &SearchPlan, exists: &Vec<bool>) -> (r: Option<Found>)
        requires
            exists@.len() == plan.probes@.len(),
        ensures
            r == if first_set(exists@, 0) < exists@.len() {
                Some(Found::Probe(first_set(exists@, 0) as usize))
            } else if plan.root_if_none {
                Some(Found::Root)
            } else {
                None
            },
    {
        let mut i: usize = 0;
        while i < exists.len()
            invariant
                i <= exists.len(),
                first_set(exists@, 0) == first_set(exists@, i as int),
            decreases exists.len() - i,
        {
            if exists[i] {
                return Some(Found::Probe(i));
            }
            i += 1;
        }
        if plan.root_if_none {
            Some(Found::Root)
        } else {
            None
        }
    }

    /// The candidates that offer the entries of a directory.
    pub fn generate_path_candidates(&self, entries: &Vec<DirEntry>) -> (r: Vec<Candidate>)
        ensures
            r@.len() == entries@.len(),
            forall|i: int| 0 <= i < r@.len() ==> offers(#[trigger] r@[i], entries@[i]),
    {
        let mut candidates: Vec<Candidate> = Vec::new();
        let mut i: usize = 0;
        while i < entries.len()
            invariant
                i <= entries.len(),
                candidates@.len() == i,
                forall|j: int| 0 <= j < i ==> offers(#[trigger] candidates@[j], entries@[j]),
            decreases entries.len() - i,
        {
            let file_type = match entries[i].kind {
                EntryKind::Dir => FileType::Dir,
                EntryKind::File => FileType::File,
                EntryKind::Unknown => FileType::FileAndDir,
            };
            candidates.push(
                Candidate {
                    insertion_text: copy_of(entries[i].name.as_str()),
                    extra_menu_info: Some(file_type.to_string()),
                    menu_text: None,
                    detailed_info: None,
                    kind: None,
                    extra_data: None,
                },
            );
            i += 1;
        }
        candidates
    }

    /// The completions for a path that was found: notes in the request that
    /// the completion starts at `start`, and passes the entries of the
    /// directory through the funnel.
    pub fn complete_path(&self, request: &mut SimpleRequest, start: usize, entries: &Vec<DirEntry>) -> (r:
        Vec<Candidate>)
        ensures
            final(request).start_column == Some(start),
            final(request).line_num == old(request).line_num,
            final(request).column_num == old(request).column_num,
            final(request).filepath == old(request).filepath,
            final(request).file_data == old(request).file_data,
            final(request).completer_target == old(request).completer_target,
            final(request).working_dir == old(request).working_dir,
            final(request).extra_conf_data == old(request).extra_conf_data,
            match final(request).query_model() {
                None => r@.len() == 0,
                Some(query) => exists|pool: Seq<Candidate>|
                    {
                        &&& pool.len() == entries@.len()
                        &&& forall|i: int| 0 <= i < pool.len() ==> offers(#[trigger] pool[i], entries@[i])
                        &&& #[trigger] is_top_ranked(
                            r@,
                            pool,
                            insertion_texts(pool),
                            query,
                            self.config.max_candidates,
                        )
                    },
            },
    {
        request.start_column = Some(start);
        let candidates = self.generate_path_candidates(entries);
        funnel(candidates, request, self.config.max_candidates)
    }
}

/// A head found in the text before a separator starts on a character
/// boundary of the whole line.
pub proof fn lemma_head_on_boundary(prefix: Seq<char>, cut: int, head: (usize, usize))
    requires
        on_boundary(prefix, cut),
        head.0 <= vstd::utf8::encode_utf8(byte_slice(prefix, 0, cut)).len(),
        vstd::utf8::is_char_boundary(
            vstd::utf8::encode_utf8(byte_slice(prefix, 0, cut)),
            head.0 as int,
        ),
    ensures
        on_boundary(prefix, head.0 as int),
        head.0 <= cut,
{
    let bytes = vstd::utf8::encode_utf8(prefix);
    vstd::utf8::encode_utf8_valid_utf8(prefix);
    vstd::utf8::valid_utf8_split(bytes, cut);
    let front = bytes.subrange(0, cut);
    vstd::utf8::decode_utf8_encode_utf8(front);
    assert(vstd::utf8::encode_utf8(byte_slice(prefix, 0, cut)) == front);
    if head.0 < cut {
        vstd::utf8::is_char_boundary_iff_not_is_continuation_byte(front, head.0 as int);
        vstd::utf8::is_char_boundary_iff_not_is_continuation_byte(bytes, head.0 as int);
    }
}

} // verus!
