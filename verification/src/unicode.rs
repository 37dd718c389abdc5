//! The Unicode facts the matcher relies on. Each is computed by code outside
//! this crate; the functions here give those results a name so that contracts
//! elsewhere can speak of them.

use vstd::prelude::*;
use unicode_linebreak::{break_property, BreakClass};
use unicode_normalization::UnicodeNormalization;
use unicode_segmentation::UnicodeSegmentation;

verus! {

/// How a code point takes part in line breaking, as far as a base form cares.
#[derive(Clone, Copy, Debug, PartialEq, Eq, Structural)]
pub enum BreakKind {
    Before,
    After,
    BeforeAndAfter,
    Space,
    CombiningMark,
    Other,
}

/// The canonical decomposition (NFD) of a string.
pub uninterp spec fn nfd_of(text: Seq<char>) -> Seq<char>;

/// The line-break kind of a code point.
pub uninterp spec fn break_kind_of(c: char) -> BreakKind;

/// The lowercase mapping of a code point.
pub uninterp spec fn lowercase_of(c: char) -> Seq<char>;

/// The uppercase mapping of a code point.
pub uninterp spec fn uppercase_of(c: char) -> Seq<char>;

/// Whether a code point has the `Uppercase` property.
pub uninterp spec fn uppercase_property(c: char) -> bool;

/// Whether a code point has the `Lowercase` property.
pub uninterp spec fn lowercase_property(c: char) -> bool;

/// Whether a code point has the `Alphabetic` property.
pub uninterp spec fn alphabetic_property(c: char) -> bool;

/// Whether a code point has the `White_Space` property.
pub uninterp spec fn whitespace_property(c: char) -> bool;

/// The extended grapheme clusters of a string, in order.
pub uninterp spec fn grapheme_clusters_of(text: Seq<char>) -> Seq<Seq<char>>;

/// ASCII punctuation: the four blocks of printable ASCII that are neither
/// letters, digits nor the space.
pub open spec fn ascii_punctuation(c: char) -> bool {
    ||| '!' <= c <= '/'
    ||| ':' <= c <= '@'
    ||| '[' <= c <= '`'
    ||| '{' <= c <= '~'
}

/// The strings of a vector, each as its sequence of code points.
pub open spec fn views_of(strings: Seq<String>) -> Seq<Seq<char>> {
    Seq::new(strings.len(), |i: int| strings[i]@)
}

/// Calls `UnicodeNormalization::nfd` of unicode-normalization on a string and
/// collects the code points it yields. Not proved: that they are `nfd_of`.
#[verifier::external_body]
pub(crate) fn nfd(text: &str) -> (r: Vec<char>)
    ensures
        r@ == nfd_of(text@),
{
    text.nfd().collect()
}

/// Calls `break_property` of unicode-linebreak on a code point and keeps the
/// five classes that a base form leaves out. Not proved: that the class is
/// `break_kind_of`.
#[verifier::external_body]
pub(crate) fn break_kind(c: char) -> (r: BreakKind)
    ensures
        r == break_kind_of(c),
{
    match break_property(u32::from(c)) {
        BreakClass::Before => BreakKind::Before,
        BreakClass::After => BreakKind::After,
        BreakClass::BeforeAndAfter => BreakKind::BeforeAndAfter,
        BreakClass::Space => BreakKind::Space,
        BreakClass::CombiningMark => BreakKind::CombiningMark,
        _ => BreakKind::Other,
    }
}

/// Calls `char::to_lowercase` and collects what it yields. Not proved: that
/// this is `lowercase_of`.
#[verifier::external_body]
pub(crate) fn to_lowercase(c: char) -> (r: Vec<char>)
    ensures
        r@ == lowercase_of(c),
{
    c.to_lowercase().collect()
}

/// Calls `char::to_uppercase` and collects what it yields. Not proved: that
/// this is `uppercase_of`.
#[verifier::external_body]
pub(crate) fn to_uppercase(c: char) -> (r: Vec<char>)
    ensures
        r@ == uppercase_of(c),
{
    c.to_uppercase().collect()
}

/// Calls `char::is_uppercase`. Not proved: that it tells `uppercase_property`.
#[verifier::external_body]
pub(crate) fn is_uppercase(c: char) -> (r: bool)
    ensures
        r == uppercase_property(c),
{
    c.is_uppercase()
}

/// Calls `char::is_lowercase`. Not proved: that it tells `lowercase_property`.
#[verifier::external_body]
pub(crate) fn is_lowercase(c: char) -> (r: bool)
    ensures
        r == lowercase_property(c),
{
    c.is_lowercase()
}

/// Calls `char::is_alphabetic`. Not proved: that it tells
/// `alphabetic_property`.
#[verifier::external_body]
pub(crate) fn is_alphabetic(c: char) -> (r: bool)
    ensures
        r == alphabetic_property(c),
{
    c.is_alphabetic()
}

/// Calls `char::is_whitespace`. Not proved: that it tells
/// `whitespace_property`.
#[verifier::external_body]
pub(crate) fn is_whitespace(c: char) -> (r: bool)
    ensures
        r == whitespace_property(c),
{
    c.is_whitespace()
}

/// Calls `char::is_ascii_punctuation`. Not proved: that it holds exactly on
/// the four ASCII blocks that std documents.
#[verifier::external_body]
pub(crate) fn is_ascii_punctuation(c: char) -> (r: bool)
    ensures
        r == ascii_punctuation(c),
{
    c.is_ascii_punctuation()
}

/// Calls `UnicodeSegmentation::graphemes` of unicode-segmentation, with
/// extended clusters, and copies each cluster out. Not proved: that the
/// clusters are `grapheme_clusters_of`, and that none is empty.
#[verifier::external_body]
pub(crate) fn graphemes(text: &str) -> (r: Vec<String>)
    ensures
        views_of(r@) == grapheme_clusters_of(text@),
        forall|i: int| 0 <= i < r@.len() ==> (#[trigger] r@[i])@.len() > 0,
{
    text.graphemes(true).map(String::from).collect()
}

} // verus!
