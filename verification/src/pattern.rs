//! Regular expressions. Matching is done by the regex crate; the functions
//! here give its results a name and hand them out as byte spans. A pattern
//! that does not compile matches nothing.

use vstd::prelude::*;
use vstd::string::StringSliceAdditionalSpecFns;
use vstd::utf8::is_char_boundary;
use regex::{Regex, RegexSet};

verus! {

/// The capture groups of the leftmost match of the pattern in the text: for
/// each group, the byte span it took part with, if it took part. `None` if
/// the pattern does not match.
pub uninterp spec fn leftmost_captures_of(pattern: Seq<char>, text: Seq<char>) -> Option<
    Seq<Option<(usize, usize)>>,
>;

/// The byte span of the group called `name` in the leftmost match of the
/// pattern in the text, if there is a match, such a group, and it took part.
pub uninterp spec fn named_capture_of(pattern: Seq<char>, text: Seq<char>, name: Seq<char>) -> Option<
    (usize, usize),
>;

/// The capture groups of each of the successive non-overlapping matches of
/// the pattern in the text.
pub uninterp spec fn all_captures_of(pattern: Seq<char>, text: Seq<char>) -> Seq<
    Seq<Option<(usize, usize)>>,
>;

/// The byte spans of the successive non-overlapping matches of the pattern in
/// the text.
pub uninterp spec fn all_matches_of(pattern: Seq<char>, text: Seq<char>) -> Seq<(usize, usize)>;

/// The byte span of the leftmost match of the pattern in the text.
pub uninterp spec fn first_match_of(pattern: Seq<char>, text: Seq<char>) -> Option<(usize, usize)>;

/// The text with every regular-expression meta character escaped.
pub uninterp spec fn escaped_of(text: Seq<char>) -> Seq<char>;

/// The positions, in ascending order, of the patterns of a set that match
/// somewhere in the text.
pub uninterp spec fn set_matches_of(patterns: Seq<Seq<char>>, text: Seq<char>) -> Seq<usize>;

/// The texts of a vector of strings.
pub open spec fn texts_of(strings: Seq<String>) -> Seq<Seq<char>> {
    Seq::new(strings.len(), |i: int| strings[i]@)
}

/// A span lies in the text, between two character boundaries.
pub open spec fn span_fits(span: (usize, usize), text: &str) -> bool {
    &&& span.0 <= span.1 <= text.spec_bytes().len()
    &&& is_char_boundary(text.spec_bytes(), span.0 as int)
    &&& is_char_boundary(text.spec_bytes(), span.1 as int)
}

/// The spans lie in the text and follow one another without overlap.
pub open spec fn spans_in_sequence(spans: Seq<(usize, usize)>, text: &str) -> bool {
    &&& forall|i: int| 0 <= i < spans.len() ==> span_fits(#[trigger] spans[i], text)
    &&& forall|i: int, j: int|
        0 <= i < j < spans.len() ==> (#[trigger] spans[i]).1 <= (#[trigger] spans[j]).0
}

/// The whole-match span of a list of capture groups: that of group 0.
pub open spec fn whole_of(groups: Seq<Option<(usize, usize)>>) -> (usize, usize) {
    groups[0].unwrap()
}

/// The whole-match spans of successive matches.
pub open spec fn wholes_of(matches: Seq<Vec<Option<(usize, usize)>>>) -> Seq<(usize, usize)> {
    Seq::new(matches.len(), |i: int| whole_of(matches[i]@))
}

/// The capture groups of successive matches, as sequences.
pub open spec fn groups_of(matches: Seq<Vec<Option<(usize, usize)>>>) -> Seq<
    Seq<Option<(usize, usize)>>,
> {
    Seq::new(matches.len(), |i: int| matches[i]@)
}

/// Each match has a group 0 that took part, and every group that took part
/// fits in the text.
pub open spec fn groups_fit(matches: Seq<Vec<Option<(usize, usize)>>>, text: &str) -> bool {
    forall|i: int|
        0 <= i < matches.len() ==> {
            &&& (#[trigger] matches[i])@.len() > 0
            &&& matches[i]@[0] is Some
            &&& forall|g: int|
                0 <= g < matches[i]@.len() && (#[trigger] matches[i]@[g]) is Some ==> span_fits(
                    matches[i]@[g].unwrap(),
                    text,
                )
        }
}

/// Compiles the pattern with `Regex::new` and searches the text with
/// `Regex::captures`. Not proved: that the spans are `leftmost_captures_of`,
/// and that a match has a group 0, which took part.
#[verifier::external_body]
pub(crate) fn leftmost_captures(pattern: &str, text: &str) -> (r: Option<
    Vec<Option<(usize, usize)>>,
>)
    ensures
        r is Some == leftmost_captures_of(pattern@, text@) is Some,
        r is Some ==> r.unwrap()@ == leftmost_captures_of(pattern@, text@).unwrap(),
        r is Some ==> r.unwrap()@.len() > 0 && r.unwrap()@[0] is Some,
{
    match Regex::new(pattern) {
        Ok(re) => re.captures(text).map(
            |c| c.iter().map(|g| g.map(|m| (m.start(), m.end()))).collect(),
        ),
        Err(_) => None,
    }
}

/// Compiles the pattern with `Regex::new`, searches the text with
/// `Regex::captures` and asks the match for a group by `Captures::name`. Not
/// proved: that the span is `named_capture_of`.
#[verifier::external_body]
pub(crate) fn named_capture(pattern: &str, text: &str, name: &str) -> (r: Option<(usize, usize)>)
    ensures
        r == named_capture_of(pattern@, text@, name@),
{
    match Regex::new(pattern) {
        Ok(re) => re.captures(text).and_then(|c| c.name(name).map(|m| (m.start(), m.end()))),
        Err(_) => None,
    }
}

/// Compiles the pattern with `Regex::new` and walks the text with
/// `Regex::captures_iter`. Not proved: that the spans are `all_captures_of`,
/// that each match has a group 0 which took part, that the groups which took
/// part fit in the text, and that the matches follow one another without
/// overlap.
#[verifier::external_body]
pub(crate) fn all_captures(pattern: &str, text: &str) -> (r: Vec<Vec<Option<(usize, usize)>>>)
    ensures
        groups_of(r@) == all_captures_of(pattern@, text@),
        groups_fit(r@, text),
        spans_in_sequence(wholes_of(r@), text),
{
    match Regex::new(pattern) {
        Ok(re) => re.captures_iter(text).map(
            |c| c.iter().map(|g| g.map(|m| (m.start(), m.end()))).collect(),
        ).collect(),
        Err(_) => Vec::new(),
    }
}

/// Compiles the pattern with `Regex::new` and walks the text with
/// `Regex::find_iter`. Not proved: that the spans are `all_matches_of`, that
/// they fit in the text, and that they follow one another without overlap.
#[verifier::external_body]
pub(crate) fn find_all(pattern: &str, text: &str) -> (r: Vec<(usize, usize)>)
    ensures
        r@ == all_matches_of(pattern@, text@),
        spans_in_sequence(r@, text),
{
    match Regex::new(pattern) {
        Ok(re) => re.find_iter(text).map(|m| (m.start(), m.end())).collect(),
        Err(_) => Vec::new(),
    }
}

/// Compiles the pattern with `Regex::new` and searches the text with
/// `Regex::find`. Not proved: that the span is `first_match_of`, and that it
/// fits in the text.
#[verifier::external_body]
pub(crate) fn find_first(pattern: &str, text: &str) -> (r: Option<(usize, usize)>)
    ensures
        r == first_match_of(pattern@, text@),
        r is Some ==> span_fits(r.unwrap(), text),
{
    match Regex::new(pattern) {
        Ok(re) => re.find(text).map(|m| (m.start(), m.end())),
        Err(_) => None,
    }
}

/// Calls `regex::escape`. Not proved: that the result is `escaped_of`.
#[verifier::external_body]
pub(crate) fn escape(text: &str) -> (r: String)
    ensures
        r@ == escaped_of(text@),
{
    regex::escape(text)
}

/// Builds a set from the patterns with `RegexSet::new` and asks it, with
/// `RegexSet::matches`, which of them match in the text. Not proved: that
/// the positions are `set_matches_of`.
#[verifier::external_body]
pub(crate) fn set_matches(patterns: &Vec<String>, text: &str) -> (r: Vec<usize>)
    ensures
        r@ == set_matches_of(texts_of(patterns@), text@),
{
    match RegexSet::new(patterns) {
        Ok(set) => set.matches(text).into_iter().collect(),
        Err(_) => Vec::new(),
    }
}

} // verus!
