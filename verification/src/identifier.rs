//! What counts as an identifier in each filetype, and where the identifier
//! that ends at the cursor starts.

use vstd::prelude::*;
use crate::pattern::{leftmost_captures, leftmost_captures_of, named_capture, named_capture_of};
use crate::text::{byte_len, byte_length, byte_slice, on_boundary, same_text, slice};

verus! {

// At least C++ and JavaScript accept identifiers that start with any
// alphabetic character or an underscore, so the default does too: one
// character that is a word character but no digit, then word characters.
pub const DEFAULT_IDENTIFIER: &'static str = r"[^\W\d]\w*";

// The default plus the dollar sign.
pub const JS_IDENTIFIER: &'static str = r"(?:[^\W\d]|\$)[\w$]*";

pub const CSS_IDENTIFIER: &'static str = r"-?[^\W\d][\w-]*";

// Tag names, attribute names and unquoted attribute values, without the
// characters that templates commonly use.
pub const HTML_IDENTIFIER: &'static str = r#"[a-zA-Z][^\s/>='\\"}{\.]*"#;

// Any sequence of '.', '_' and alphanumerics that does not start with a
// digit, with '_', or with '.' and a digit.
pub const R_IDENTIFIER: &'static str = r"(?:\.\d|\d|_)?(?P<id>[\.\w]*)";

pub const CLOJURE_IDENTIFIER: &'static str = r"[-\*\+!_\?:\.a-zA-Z][-\*\+!_\?:\.\w]*/?[-\*\+!_\?:\.\w]*";

pub const HASKELL_IDENTIFIER: &'static str = r"[_a-zA-Z][\w']+";

// Colons and dashes are accepted inside an identifier, as in labels and
// compound words, but not at its ends.
pub const TEX_IDENTIFIER: &'static str = r"[^\W\d](?:[\w:-]*\w)?";

pub const PERL6_IDENTIFIER: &'static str = r"[_a-zA-Z](?:\w|[-'](?:[_a-zA-Z]))*";

pub const SCHEME_IDENTIFIER: &'static str =
    r"\+|\-|\.\.\.|(?:->|(?:\\x[0-9A-Fa-f]+;|[!$%&*/:<=>?~^]|[^\W\d]))(?:\\x[0-9A-Fa-f]+;|[-+.@!$%&*/:<=>?~^\w])*";

/// The name of the capture group that, where a pattern has it, holds the
/// identifier.
pub const IDENTIFIER_GROUP: &'static str = "id";

/// The text of an optional filetype.
pub open spec fn filetype_text(filetype: Option<&str>) -> Option<Seq<char>> {
    match filetype {
        Some(t) => Some(t@),
        None => None,
    }
}

/// The identifier pattern of a filetype; the default for no filetype and for
/// one without a pattern of its own.
pub open spec fn identifier_pattern_of(filetype: Option<Seq<char>>) -> Seq<char> {
    match filetype {
        None => DEFAULT_IDENTIFIER@,
        Some(t) => if t == "javascript"@ || t == "typescript"@ {
            JS_IDENTIFIER@
        } else if t == "css"@ || t == "scss"@ || t == "sass"@ || t == "less"@ {
            CSS_IDENTIFIER@
        } else if t == "html"@ {
            HTML_IDENTIFIER@
        } else if t == "r"@ {
            R_IDENTIFIER@
        } else if t == "clojure"@ || t == "elisp"@ || t == "lisp"@ {
            CLOJURE_IDENTIFIER@
        } else if t == "haskell"@ {
            HASKELL_IDENTIFIER@
        } else if t == "tex"@ {
            TEX_IDENTIFIER@
        } else if t == "perl6"@ {
            PERL6_IDENTIFIER@
        } else if t == "scheme"@ {
            SCHEME_IDENTIFIER@
        } else {
            DEFAULT_IDENTIFIER@
        },
    }
}

/// The identifier group of a match spans a text of `len` bytes from end to
/// end. The identifier group is the named one where the pattern has groups
/// and the named one took part, the whole match otherwise.
pub open spec fn spans_whole_text(
    groups: Option<Seq<Option<(usize, usize)>>>,
    named: Option<(usize, usize)>,
    len: nat,
) -> bool {
    match groups {
        None => false,
        Some(g) => if g.len() > 1 && named is Some {
            named.unwrap().0 == 0 && named.unwrap().1 == len
        } else {
            g.len() > 0 && g[0] is Some && g[0].unwrap().0 == 0 && g[0].unwrap().1 == len
        },
    }
}

/// The text is an identifier under the pattern: it is not empty, and the
/// identifier group of the pattern's leftmost match is the whole text.
pub open spec fn identifier_under(pattern: Seq<char>, text: Seq<char>) -> bool {
    text.len() > 0 && spans_whole_text(
        leftmost_captures_of(pattern, text),
        named_capture_of(pattern, text, IDENTIFIER_GROUP@),
        byte_len(text),
    )
}

/// The text is an identifier of the filetype.
pub open spec fn is_identifier_text(text: Seq<char>, filetype: Option<Seq<char>>) -> bool {
    identifier_under(identifier_pattern_of(filetype), text)
}

/// The identifier pattern of a filetype.
pub fn identifier_pattern(filetype: Option<&str>) -> (r: &'static str)
    ensures
        r@ == identifier_pattern_of(filetype_text(filetype)),
{
    match filetype {
        None => DEFAULT_IDENTIFIER,
        Some(t) => {
            if same_text(t, "javascript") || same_text(t, "typescript") {
                JS_IDENTIFIER
            } else if same_text(t, "css") || same_text(t, "scss") || same_text(t, "sass")
                || same_text(t, "less") {
                CSS_IDENTIFIER
            } else if same_text(t, "html") {
                HTML_IDENTIFIER
            } else if same_text(t, "r") {
                R_IDENTIFIER
            } else if same_text(t, "clojure") || same_text(t, "elisp") || same_text(t, "lisp") {
                CLOJURE_IDENTIFIER
            } else if same_text(t, "haskell") {
                HASKELL_IDENTIFIER
            } else if same_text(t, "tex") {
                TEX_IDENTIFIER
            } else if same_text(t, "perl6") {
                PERL6_IDENTIFIER
            } else if same_text(t, "scheme") {
                SCHEME_IDENTIFIER
            } else {
                DEFAULT_IDENTIFIER
            }
        },
    }
}

/// Whether the identifier group of a match spans a text of `len` bytes from
/// end to end.
pub fn covers_whole_text(
    groups: &Option<Vec<Option<(usize, usize)>>>,
    named: Option<(usize, usize)>,
    len: usize,
) -> (r: bool)
    ensures
        r == spans_whole_text(
            match groups {
                Some(g) => Some(g@),
                None => None,
            },
            named,
            len as nat,
        ),
{
    match groups {
        None => false,
        Some(g) => {
            if g.len() > 1 && named.is_some() {
                let span = named.unwrap();
                span.0 == 0 && span.1 == len
            } else if g.len() > 0 {
                match g[0] {
                    Some(span) => span.0 == 0 && span.1 == len,
                    None => false,
                }
            } else {
                false
            }
        },
    }
}

/// Whether the text is an identifier under the pattern.
pub fn is_identifier_under(pattern: &str, text: &str) -> (r: bool)
    ensures
        r == identifier_under(pattern@, text@),
{
    if text.is_empty() {
        return false;
    }
    let groups = leftmost_captures(pattern, text);
    let has_groups = match &groups {
        Some(g) => g.len() > 1,
        None => false,
    };
    let named = if has_groups {
        named_capture(pattern, text, IDENTIFIER_GROUP)
    } else {
        None
    };
    proof {
        let found = leftmost_captures_of(pattern@, text@);
        assert(groups is Some == found is Some);
        if groups is Some {
            assert(groups.unwrap()@ == found.unwrap());
        }
    }
    covers_whole_text(&groups, named, byte_length(text))
}

/// Whether the text is an identifier of the filetype.
pub fn is_identifier(text: &str, filetype: Option<&str>) -> (r: bool)
    ensures
        r == is_identifier_text(text@, filetype_text(filetype)),
{
    is_identifier_under(identifier_pattern(filetype), text)
}

/// An identifier of the filetype starts at byte `start` of the text and ends
/// just before byte `index`.
pub open spec fn identifier_between(
    text: Seq<char>,
    start: int,
    index: int,
    filetype: Option<Seq<char>>,
) -> bool {
    on_boundary(text, start) && is_identifier_text(byte_slice(text, start, index), filetype)
}

/// The first offset at or after `i` from which the text up to `index` is an
/// identifier; `index` if there is none.
pub open spec fn first_start_from(
    text: Seq<char>,
    index: int,
    filetype: Option<Seq<char>>,
    i: int,
) -> int
    decreases index - i,
{
    if i >= index {
        index
    } else if identifier_between(text, i, index, filetype) {
        i
    } else {
        first_start_from(text, index, filetype, i + 1)
    }
}

/// Where the longest identifier that ends just before byte `index` starts;
/// `index` itself if there is none, or if `index` lies beyond the text or
/// inside a character.
pub open spec fn identifier_start(text: Seq<char>, index: int, filetype: Option<Seq<char>>) -> int {
    if on_boundary(text, index) {
        first_start_from(text, index, filetype, 0)
    } else {
        index
    }
}

/// The start that `first_start_from` finds lies between `i` and `index`, on
/// a character boundary.
pub proof fn lemma_first_start_from(
    text: Seq<char>,
    index: int,
    filetype: Option<Seq<char>>,
    i: int,
)
    requires
        0 <= i <= index,
        on_boundary(text, index),
    ensures
        i <= first_start_from(text, index, filetype, i) <= index,
        on_boundary(text, first_start_from(text, index, filetype, i)),
    decreases index - i,
{
    if i < index && !identifier_between(text, i, index, filetype) {
        lemma_first_start_from(text, index, filetype, i + 1);
    }
}

/// The start of the longest identifier that ends just before byte `index`:
/// the smallest offset from which the text up to `index` is an identifier.
/// Gives `index` back if there is no such offset, or if `index` lies beyond
/// the text or inside a character.
pub fn start_of_longest_identifier_ending_at_index(
    text: &str,
    index: usize,
    filetype: Option<&str>,
) -> (r: usize)
    ensures
        r == identifier_start(text@, index as int, filetype_text(filetype)),
        r <= index,
        !on_boundary(text@, index as int) ==> r == index,
        r < index ==> identifier_between(text@, r as int, index as int, filetype_text(filetype)),
        on_boundary(text@, index as int) ==> forall|i: int|
            0 <= i < r ==> !identifier_between(text@, i, index as int, filetype_text(filetype)),
{
    if byte_length(text) < index || !text.is_char_boundary(index) {
        return index;
    }
    let pattern = identifier_pattern(filetype);
    let mut i: usize = 0;
    while i < index
        invariant
            i <= index,
            on_boundary(text@, index as int),
            pattern@ == identifier_pattern_of(filetype_text(filetype)),
            identifier_start(text@, index as int, filetype_text(filetype)) == first_start_from(
                text@,
                index as int,
                filetype_text(filetype),
                i as int,
            ),
            forall|j: int|
                0 <= j < i ==> !identifier_between(
                    text@,
                    j,
                    index as int,
                    filetype_text(filetype),
                ),
        decreases index - i,
    {
        if text.is_char_boundary(i) && is_identifier_under(pattern, slice(text, i, index)) {
            return i;
        }
        i += 1;
    }
    index
}

} // verus!
