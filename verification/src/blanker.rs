//! Blanking of comments and string literals, so that no identifier is taken
//! from them, while every line keeps its number.

use vstd::prelude::*;
use vstd::string::{StringExecFns, StringSliceAdditionalSpecFns};
use vstd::utf8::encode_utf8;
use crate::identifier::filetype_text;
use crate::pattern::{
    all_captures, all_captures_of, groups_fit, groups_of, span_fits, spans_in_sequence,
    whole_of, wholes_of,
};
use crate::text::{byte_len, byte_length, byte_slice, lemma_ends_are_boundaries, same_text, slice};

verus! {

pub const C_STYLE_COMMENT: &'static str = "(/\\*(?:\n|.)*?\\*/)";

pub const CPP_STYLE_COMMENT: &'static str = "(//.*?$)";

pub const PYTHON_STYLE_COMMENT: &'static str = "(#.*?$)";

// Anything inside single quotes, '...', but mind:
//  1. that the starting single quote is not escaped
//  2. the escaped slash (\\)
//  3. the escaped single quote inside the string
pub const SINGLE_QUOTE_STRING: &'static str = r"(?:[^\\])('(?:\\\\|\\'|.)*?')";

// The same inside double quotes.
pub const DOUBLE_QUOTE_STRING: &'static str = r#"(?:[^\\])("(?:\\\\|\\"|.)*?")"#;

// The same inside back quotes.
pub const BACK_QUOTE_STRING: &'static str = r#"(?:[^\\])(`(?:\\\\|\\`|.)*?`)"#;

// Python-style multiline single-quote string
pub const MULTILINE_SINGLE_QUOTE_STRING: &'static str = "('''(?:\n|.)*?''')";

// Python-style multiline double-quote string
pub const MULTILINE_DOUBLE_QUOTE_STRING: &'static str = r#"("""(?:\n|.)*?""")"#;

/// The texts of a list of pattern pieces.
pub open spec fn piece_texts(pieces: Seq<&'static str>) -> Seq<Seq<char>> {
    Seq::new(pieces.len(), |i: int| pieces[i]@)
}

/// The alternatives that make up the comment-and-string pattern of a
/// filetype.
pub open spec fn comment_pieces_of(filetype: Option<Seq<char>>) -> Seq<Seq<char>> {
    let all = seq![
        C_STYLE_COMMENT@,
        CPP_STYLE_COMMENT@,
        PYTHON_STYLE_COMMENT@,
        SINGLE_QUOTE_STRING@,
        DOUBLE_QUOTE_STRING@,
        BACK_QUOTE_STRING@,
        MULTILINE_SINGLE_QUOTE_STRING@,
        MULTILINE_DOUBLE_QUOTE_STRING@,
    ];
    match filetype {
        None => all,
        Some(t) => if t == "cpp"@ || t == "c"@ || t == "cuda"@ || t == "objc"@ || t == "objcpp"@
            || t == "javascript"@ || t == "typesript"@ {
            seq![
                C_STYLE_COMMENT@,
                CPP_STYLE_COMMENT@,
                SINGLE_QUOTE_STRING@,
                DOUBLE_QUOTE_STRING@,
            ]
        } else if t == "go"@ {
            seq![
                C_STYLE_COMMENT@,
                CPP_STYLE_COMMENT@,
                SINGLE_QUOTE_STRING@,
                DOUBLE_QUOTE_STRING@,
                BACK_QUOTE_STRING@,
            ]
        } else if t == "python"@ {
            seq![
                PYTHON_STYLE_COMMENT@,
                MULTILINE_SINGLE_QUOTE_STRING@,
                MULTILINE_DOUBLE_QUOTE_STRING@,
                SINGLE_QUOTE_STRING@,
                DOUBLE_QUOTE_STRING@,
            ]
        } else if t == "rust"@ {
            seq![CPP_STYLE_COMMENT@, SINGLE_QUOTE_STRING@, DOUBLE_QUOTE_STRING@]
        } else {
            all
        },
    }
}

/// The first `n` pieces as alternatives of one pattern: joined by `|`.
pub open spec fn alternatives_upto(pieces: Seq<Seq<char>>, n: int) -> Seq<char>
    decreases n,
{
    if n <= 0 {
        Seq::empty()
    } else if n == 1 {
        pieces[0]
    } else {
        alternatives_upto(pieces, n - 1) + "|"@ + pieces[n - 1]
    }
}

/// The comment-and-string pattern of a filetype: its alternatives, in a
/// group in which `^` and `$` match at line ends too.
pub open spec fn comment_pattern_of(filetype: Option<Seq<char>>) -> Seq<char> {
    let pieces = comment_pieces_of(filetype);
    "(?m:"@ + alternatives_upto(pieces, pieces.len() as int) + ")"@
}

/// The alternatives that make up the comment-and-string pattern of a
/// filetype.
pub fn comment_pieces(filetype: Option<&str>) -> (r: Vec<&'static str>)
    ensures
        piece_texts(r@) == comment_pieces_of(filetype_text(filetype)),
{
    let all = vec![
        C_STYLE_COMMENT,
        CPP_STYLE_COMMENT,
        PYTHON_STYLE_COMMENT,
        SINGLE_QUOTE_STRING,
        DOUBLE_QUOTE_STRING,
        BACK_QUOTE_STRING,
        MULTILINE_SINGLE_QUOTE_STRING,
        MULTILINE_DOUBLE_QUOTE_STRING,
    ];
    let r = match filetype {
        None => all,
        Some(t) => {
            if same_text(t, "cpp") || same_text(t, "c") || same_text(t, "cuda") || same_text(
                t,
                "objc",
            ) || same_text(t, "objcpp") || same_text(t, "javascript") || same_text(
                t,
                "typesript",
            ) {
                vec![C_STYLE_COMMENT, CPP_STYLE_COMMENT, SINGLE_QUOTE_STRING, DOUBLE_QUOTE_STRING]
            } else if same_text(t, "go") {
                vec![
                    C_STYLE_COMMENT,
                    CPP_STYLE_COMMENT,
                    SINGLE_QUOTE_STRING,
                    DOUBLE_QUOTE_STRING,
                    BACK_QUOTE_STRING,
                ]
            } else if same_text(t, "python") {
                vec![
                    PYTHON_STYLE_COMMENT,
                    MULTILINE_SINGLE_QUOTE_STRING,
                    MULTILINE_DOUBLE_QUOTE_STRING,
                    SINGLE_QUOTE_STRING,
                    DOUBLE_QUOTE_STRING,
                ]
            } else if same_text(t, "rust") {
                vec![CPP_STYLE_COMMENT, SINGLE_QUOTE_STRING, DOUBLE_QUOTE_STRING]
            } else {
                all
            }
        },
    };
    assert(piece_texts(r@) =~= comment_pieces_of(filetype_text(filetype)));
    r
}

/// The comment-and-string pattern of a filetype.
pub fn comment_and_string_pattern(filetype: Option<&str>) -> (r: String)
    ensures
        r@ == comment_pattern_of(filetype_text(filetype)),
{
    let pieces = comment_pieces(filetype);
    let ghost texts = piece_texts(pieces@);
    let mut joined = String::new();
    let mut i: usize = 0;
    while i < pieces.len()
        invariant
            i <= pieces.len(),
            texts == piece_texts(pieces@),
            joined@ == alternatives_upto(texts, i as int),
        decreases pieces.len() - i,
    {
        if i > 0 {
            joined.append("|");
        }
        joined.append(pieces[i]);
        assert(pieces@[i as int]@ == texts[i as int]);
        assert(Seq::<char>::empty() + texts[0] =~= texts[0]);
        i += 1;
    }
    let mut r = String::new();
    r.append("(?m:");
    r.append(joined.as_str());
    r.append(")");
    assert(r@ =~= "(?m:"@ + joined@ + ")"@);
    r
}

/// How many line feeds the first `n` bytes hold.
pub open spec fn line_feeds_upto(bytes: Seq<u8>, n: int) -> nat
    decreases n,
{
    if n <= 0 {
        0
    } else if bytes[n - 1] == 10 {
        line_feeds_upto(bytes, n - 1) + 1
    } else {
        line_feeds_upto(bytes, n - 1)
    }
}

/// How many line breaks a piece of text spans: its line feeds, but for one at
/// its very end, which breaks no line inside the piece.
pub open spec fn line_breaks(bytes: Seq<u8>) -> nat {
    let feeds = line_feeds_upto(bytes, bytes.len() as int);
    if bytes.len() > 0 && bytes.last() == 10 {
        (feeds - 1) as nat
    } else {
        feeds
    }
}

/// A run of `n` line feeds.
pub open spec fn line_feeds(n: nat) -> Seq<char> {
    Seq::new(n, |i: int| '\n')
}

/// What stands for the span `[from, to)` of the text once it is blanked: one
/// line feed for each line break in it.
pub open spec fn blank_for(text: Seq<char>, from: int, to: int) -> Seq<char> {
    line_feeds(line_breaks(encode_utf8(text).subrange(from, to)))
}

/// What groups `first..n` of a match are replaced by, and where the last of
/// them that took part ended (or `prev` if none did). Each group that took
/// part is blanked; the text between the end of the one before it and its
/// start is kept.
pub open spec fn groups_replaced(
    text: Seq<char>,
    groups: Seq<Option<(usize, usize)>>,
    prev: int,
    n: int,
) -> (Seq<char>, int)
    decreases n,
{
    if n <= 1 {
        (Seq::empty(), prev)
    } else {
        let (before, at) = groups_replaced(text, groups, prev, n - 1);
        match groups[n - 1] {
            None => (before, at),
            Some(span) => {
                let kept = if at < span.0 {
                    byte_slice(text, at, span.0 as int)
                } else {
                    Seq::empty()
                };
                (before + kept + blank_for(text, span.0 as int, span.1 as int), span.1 as int)
            },
        }
    }
}

/// What one match is replaced by. A pattern without groups has the whole
/// match blanked. One with groups has each group that took part blanked, and
/// keeps what stands before and between them; what follows the last is
/// dropped.
pub open spec fn replacement_of(text: Seq<char>, groups: Seq<Option<(usize, usize)>>) -> Seq<char> {
    let whole = whole_of(groups);
    if groups.len() == 1 {
        blank_for(text, whole.0 as int, whole.1 as int)
    } else {
        groups_replaced(text, groups, whole.0 as int, groups.len() as int).0
    }
}

/// The text up to the end of match `n - 1`, with the first `n` matches
/// replaced.
pub open spec fn blanked_upto(
    text: Seq<char>,
    matches: Seq<Seq<Option<(usize, usize)>>>,
    n: int,
) -> Seq<char>
    decreases n,
{
    if n <= 0 {
        Seq::empty()
    } else {
        let from = if n == 1 {
            0
        } else {
            whole_of(matches[n - 2]).1 as int
        };
        blanked_upto(text, matches, n - 1) + byte_slice(
            text,
            from,
            whole_of(matches[n - 1]).0 as int,
        ) + replacement_of(text, matches[n - 1])
    }
}

/// The text with every match replaced.
pub open spec fn blanked(text: Seq<char>, matches: Seq<Seq<Option<(usize, usize)>>>) -> Seq<char> {
    let from = if matches.len() == 0 {
        0
    } else {
        whole_of(matches.last()).1 as int
    };
    blanked_upto(text, matches, matches.len() as int) + byte_slice(
        text,
        from,
        byte_len(text) as int,
    )
}

/// Counts the line breaks that a piece of text spans.
pub fn count_line_breaks(piece: &str) -> (n: usize)
    ensures
        n == line_breaks(piece.spec_bytes()),
{
    let bytes = piece.as_bytes();
    let mut feeds: usize = 0;
    let mut i: usize = 0;
    while i < bytes.len()
        invariant
            i <= bytes.len(),
            feeds <= i,
            feeds == line_feeds_upto(bytes@, i as int),
        decreases bytes.len() - i,
    {
        if bytes[i] == 10 {
            feeds += 1;
        }
        i += 1;
    }
    if bytes.len() > 0 && bytes[bytes.len() - 1] == 10 {
        feeds - 1
    } else {
        feeds
    }
}

/// Appends `n` line feeds.
pub fn push_line_feeds(out: &mut String, n: usize)
    ensures
        final(out)@ == old(out)@ + line_feeds(n as nat),
{
    let mut i: usize = 0;
    proof {
        reveal_strlit("\n");
    }
    assert(out@ =~= old(out)@ + line_feeds(0));
    while i < n
        invariant
            i <= n,
            out@ == old(out)@ + line_feeds(i as nat),
            "\n"@ == seq!['\n'],
        decreases n - i,
    {
        out.append("\n");
        assert(line_feeds((i + 1) as nat) =~= line_feeds(i as nat) + seq!['\n']);
        assert(out@ =~= old(out)@ + line_feeds((i + 1) as nat));
        i += 1;
    }
}

/// Appends what the span `[from, to)` of the text is blanked to.
pub fn push_blank(out: &mut String, text: &str, from: usize, to: usize)
    requires
        span_fits((from, to), text),
    ensures
        final(out)@ == old(out)@ + blank_for(text@, from as int, to as int),
{
    let n = count_line_breaks(slice(text, from, to));
    push_line_feeds(out, n);
}

/// Appends what one match is replaced by.
pub fn push_replacement(out: &mut String, text: &str, groups: &Vec<Option<(usize, usize)>>)
    requires
        groups@.len() > 0,
        groups@[0] is Some,
        forall|g: int|
            0 <= g < groups@.len() && (#[trigger] groups@[g]) is Some ==> span_fits(
                groups@[g].unwrap(),
                text,
            ),
    ensures
        final(out)@ == old(out)@ + replacement_of(text@, groups@),
{
    let whole = groups[0].unwrap();
    if groups.len() == 1 {
        push_blank(out, text, whole.0, whole.1);
        return;
    }
    let mut prev: usize = whole.0;
    let mut g: usize = 1;
    assert(out@ =~= old(out)@ + Seq::<char>::empty());
    while g < groups.len()
        invariant
            1 <= g <= groups.len(),
            groups@.len() > 1,
            whole == whole_of(groups@),
            span_fits((prev, prev), text),
            forall|k: int|
                0 <= k < groups@.len() && (#[trigger] groups@[k]) is Some ==> span_fits(
                    groups@[k].unwrap(),
                    text,
                ),
            groups_replaced(text@, groups@, whole.0 as int, g as int).1 == prev,
            out@ == old(out)@ + groups_replaced(text@, groups@, whole.0 as int, g as int).0,
        decreases groups.len() - g,
    {
        let ghost before = groups_replaced(text@, groups@, whole.0 as int, g as int).0;
        match groups[g] {
            None => {},
            Some(span) => {
                assert(span_fits(groups@[g as int].unwrap(), text));
                let ghost kept = if prev < span.0 {
                    byte_slice(text@, prev as int, span.0 as int)
                } else {
                    Seq::empty()
                };
                if prev < span.0 {
                    out.append(slice(text, prev, span.0));
                }
                push_blank(out, text, span.0, span.1);
                assert(out@ =~= old(out)@ + (before + kept + blank_for(
                    text@,
                    span.0 as int,
                    span.1 as int,
                )));
                prev = span.1;
            },
        }
        g += 1;
    }
}

/// Replaces each of the given matches in the text: see `replacement_of`.
pub fn blank_matches(text: &str, matches: &Vec<Vec<Option<(usize, usize)>>>) -> (r: String)
    requires
        groups_fit(matches@, text),
        spans_in_sequence(wholes_of(matches@), text),
    ensures
        r@ == blanked(text@, groups_of(matches@)),
{
    let ghost ms = groups_of(matches@);
    let mut out = String::new();
    let mut last: usize = 0;
    let mut i: usize = 0;
    proof {
        lemma_ends_are_boundaries(text@);
    }
    while i < matches.len()
        invariant
            i <= matches.len(),
            ms == groups_of(matches@),
            groups_fit(matches@, text),
            spans_in_sequence(wholes_of(matches@), text),
            span_fits((last, last), text),
            last == if i == 0 {
                0
            } else {
                whole_of(ms[i - 1]).1 as int
            },
            out@ == blanked_upto(text@, ms, i as int),
        decreases matches.len() - i,
    {
        let groups = &matches[i];
        assert(groups@ == ms[i as int]);
        let whole = groups[0].unwrap();
        proof {
            assert(wholes_of(matches@)[i as int] == whole);
            assert(span_fits(wholes_of(matches@)[i as int], text));
            if i > 0 {
                assert(wholes_of(matches@)[i - 1].1 <= wholes_of(matches@)[i as int].0);
            }
        }
        out.append(slice(text, last, whole.0));
        push_replacement(&mut out, text, groups);
        last = whole.1;
        i += 1;
    }
    out.append(slice(text, last, byte_length(text)));
    proof {
        if matches@.len() > 0 {
            assert(ms.last() == ms[matches@.len() - 1]);
        }
    }
    out
}

/// The text with its comments and string literals blanked, by the pattern
/// of the filetype. Each match of the pattern is replaced as `replacement_of`
/// says, so that what follows it stays on its line.
pub fn remove_identifier_free_text(text: &str, filetype: Option<&str>) -> (r: String)
    ensures
        r@ == blanked(
            text@,
            all_captures_of(comment_pattern_of(filetype_text(filetype)), text@),
        ),
{
    let pattern = comment_and_string_pattern(filetype);
    let matches = all_captures(pattern.as_str(), text);
    blank_matches(text, &matches)
}

} // verus!
