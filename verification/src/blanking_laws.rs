//! Blanking keeps every line where it is: the blanked text has as many line
//! feeds as the text, provided that the groups of each match tile the match
//! and that no blanked span ends in a line feed.

use vstd::prelude::*;
use vstd::string::StringSliceAdditionalSpecFns;
use vstd::utf8::{
    decode_utf8_encode_utf8, encode_scalar, encode_utf8, encode_utf8_valid_utf8,
    valid_utf8_split,
};
use crate::blanker::{
    blank_for, blanked, blanked_upto, groups_replaced, line_breaks, line_feeds, line_feeds_upto,
    replacement_of,
};
use crate::pattern::{groups_fit, groups_of, span_fits, spans_in_sequence, whole_of, wholes_of};
use crate::text::{byte_len, byte_slice, lemma_boundary_in_prefix, lemma_ends_are_boundaries, on_boundary};

verus! {

/// How many line feeds the bytes hold.
pub open spec fn feeds(bytes: Seq<u8>) -> nat {
    line_feeds_upto(bytes, bytes.len() as int)
}

/// The span `[from, to)` of the bytes ends in a line feed.
pub open spec fn ends_in_feed(bytes: Seq<u8>, from: int, to: int) -> bool {
    from < to && bytes[to - 1] == 10
}

/// Among the first `n` groups of a match, those that took part follow one
/// another, the first of them at or after `prev`, and none ends in a line
/// feed.
pub open spec fn groups_in_order(
    text: Seq<char>,
    groups: Seq<Option<(usize, usize)>>,
    prev: int,
    n: int,
) -> bool
    decreases n,
{
    if n <= 1 {
        true
    } else {
        &&& groups_in_order(text, groups, prev, n - 1)
        &&& match groups[n - 1] {
            None => true,
            Some(span) => {
                &&& groups_replaced(text, groups, prev, n - 1).1 <= span.0
                &&& !ends_in_feed(encode_utf8(text), span.0 as int, span.1 as int)
            },
        }
    }
}

/// The replacement of the match keeps its lines. A match of a pattern
/// without groups does not end in a line feed. In a match of a pattern with
/// groups, the groups that took part follow one another up to the end of the
/// match, and none of them ends in a line feed.
pub open spec fn keeps_lines(text: Seq<char>, groups: Seq<Option<(usize, usize)>>) -> bool {
    let whole = whole_of(groups);
    if groups.len() == 1 {
        !ends_in_feed(encode_utf8(text), whole.0 as int, whole.1 as int)
    } else {
        &&& groups_in_order(text, groups, whole.0 as int, groups.len() as int)
        &&& groups_replaced(text, groups, whole.0 as int, groups.len() as int).1 == whole.1
    }
}

/// The line feeds among the first `n` bytes depend on those bytes alone.
pub proof fn lemma_feeds_of_prefix(a: Seq<u8>, b: Seq<u8>, n: int)
    requires
        0 <= n <= a.len(),
        n <= b.len(),
        forall|i: int| 0 <= i < n ==> a[i] == b[i],
    ensures
        line_feeds_upto(a, n) == line_feeds_upto(b, n),
    decreases n,
{
    if n > 0 {
        lemma_feeds_of_prefix(a, b, n - 1);
    }
}

/// The line feeds of two texts joined are those of the one and those of the
/// other.
pub proof fn lemma_feeds_of_joined(x: Seq<u8>, y: Seq<u8>)
    ensures
        feeds(x + y) == feeds(x) + feeds(y),
    decreases y.len(),
{
    if y.len() == 0 {
        assert(x + y =~= x);
    } else {
        let z = y.drop_last();
        lemma_feeds_of_joined(x, z);
        lemma_feeds_of_prefix(x + y, x + z, (x + z).len() as int);
        lemma_feeds_of_prefix(y, z, z.len() as int);
    }
}

/// The line feeds of a span are those of its two parts.
pub proof fn lemma_feeds_of_parts(bytes: Seq<u8>, a: int, b: int, c: int)
    requires
        0 <= a <= b <= c <= bytes.len(),
    ensures
        feeds(bytes.subrange(a, c)) == feeds(bytes.subrange(a, b)) + feeds(bytes.subrange(b, c)),
{
    assert(bytes.subrange(a, c) =~= bytes.subrange(a, b) + bytes.subrange(b, c));
    lemma_feeds_of_joined(bytes.subrange(a, b), bytes.subrange(b, c));
}

/// The encoding of two texts joined is the encoding of the one followed by
/// the encoding of the other.
pub proof fn lemma_encoding_of_joined(a: Seq<char>, b: Seq<char>)
    ensures
        encode_utf8(a + b) == encode_utf8(a) + encode_utf8(b),
    decreases a.len(),
{
    if a.len() == 0 {
        assert(a + b =~= b);
        assert(encode_utf8(a) + encode_utf8(b) =~= encode_utf8(b));
    } else {
        assert((a + b).drop_first() =~= a.drop_first() + b);
        lemma_encoding_of_joined(a.drop_first(), b);
        assert(encode_scalar(a[0] as u32) + (encode_utf8(a.drop_first()) + encode_utf8(b))
            =~= (encode_scalar(a[0] as u32) + encode_utf8(a.drop_first())) + encode_utf8(b));
    }
}

/// A piece of a text between two boundaries is encoded by the bytes between
/// them.
pub proof fn lemma_encoding_of_slice(text: Seq<char>, from: int, to: int)
    requires
        from <= to,
        on_boundary(text, from),
        on_boundary(text, to),
    ensures
        encode_utf8(byte_slice(text, from, to)) == encode_utf8(text).subrange(from, to),
{
    let bytes = encode_utf8(text);
    encode_utf8_valid_utf8(text);
    lemma_boundary_in_prefix(bytes, from, to);
    let head = bytes.subrange(0, to);
    valid_utf8_split(head, from);
    assert(head.subrange(from, head.len() as int) =~= bytes.subrange(from, to));
    decode_utf8_encode_utf8(bytes.subrange(from, to));
}

/// A run of `n` line feeds holds `n` line feeds.
pub proof fn lemma_feeds_of_run(n: nat)
    ensures
        feeds(encode_utf8(line_feeds(n))) == n,
    decreases n,
{
    if n == 0 {
        assert(line_feeds(0).len() == 0);
    } else {
        let run = line_feeds(n);
        let before = line_feeds((n - 1) as nat);
        assert(run =~= seq!['\n'] + before);
        lemma_encoding_of_joined(seq!['\n'], before);
        lemma_feeds_of_run((n - 1) as nat);
        assert(encode_utf8(seq!['\n']) =~= seq![10u8]) by {
            assert(seq!['\n'].drop_first() =~= Seq::<char>::empty());
            assert(encode_utf8(seq!['\n'].drop_first()) =~= Seq::<u8>::empty());
            assert((10u32 & 0x7F) as u8 == 10u8) by (bit_vector);
            assert('\n' as u32 == 10u32);
            reveal_with_fuel(encode_utf8, 2);
        }
        lemma_feeds_of_joined(seq![10u8], encode_utf8(before));
        assert(feeds(seq![10u8]) == 1) by {
            reveal_with_fuel(line_feeds_upto, 2);
        }
    }
}

/// A span that does not end in a line feed is blanked to as many line
/// feeds as it holds.
pub proof fn lemma_blank_keeps_feeds(text: Seq<char>, from: int, to: int)
    requires
        0 <= from <= to <= byte_len(text),
        !ends_in_feed(encode_utf8(text), from, to),
    ensures
        feeds(encode_utf8(blank_for(text, from, to))) == feeds(
            encode_utf8(text).subrange(from, to),
        ),
{
    let piece = encode_utf8(text).subrange(from, to);
    lemma_feeds_of_run(line_breaks(piece));
}

/// The replacement of the first `n` groups holds as many line feeds as the
/// match does from `prev` to the end of the last of those groups that took
/// part.
pub proof fn lemma_groups_keep_feeds(
    text: &str,
    groups: Seq<Option<(usize, usize)>>,
    prev: int,
    n: int,
)
    requires
        1 <= n <= groups.len(),
        on_boundary(text@, prev),
        forall|g: int|
            0 <= g < groups.len() && (#[trigger] groups[g]) is Some ==> span_fits(
                groups[g].unwrap(),
                text,
            ),
        groups_in_order(text@, groups, prev, n),
    ensures
        ({
            let (replaced, at) = groups_replaced(text@, groups, prev, n);
            &&& prev <= at
            &&& on_boundary(text@, at)
            &&& feeds(encode_utf8(replaced)) == feeds(encode_utf8(text@).subrange(prev, at))
        }),
    decreases n,
{
    let bytes = encode_utf8(text@);
    if n <= 1 {
        assert(bytes.subrange(prev, prev) =~= Seq::<u8>::empty());
        assert(encode_utf8(Seq::<char>::empty()) =~= Seq::<u8>::empty());
    } else {
        lemma_groups_keep_feeds(text, groups, prev, n - 1);
        let (before, at) = groups_replaced(text@, groups, prev, n - 1);
        match groups[n - 1] {
            None => {},
            Some(span) => {
                assert(span_fits(groups[n - 1].unwrap(), text));
                let kept = if at < span.0 {
                    byte_slice(text@, at, span.0 as int)
                } else {
                    Seq::empty()
                };
                let blank = blank_for(text@, span.0 as int, span.1 as int);
                assert(encode_utf8(kept) == bytes.subrange(at, span.0 as int)) by {
                    if at < span.0 {
                        lemma_encoding_of_slice(text@, at, span.0 as int);
                    } else {
                        assert(bytes.subrange(at, span.0 as int) =~= Seq::<u8>::empty());
                        assert(encode_utf8(Seq::<char>::empty()) =~= Seq::<u8>::empty());
                    }
                }
                lemma_blank_keeps_feeds(text@, span.0 as int, span.1 as int);
                lemma_encoding_of_joined(before, kept);
                lemma_encoding_of_joined(before + kept, blank);
                lemma_feeds_of_joined(encode_utf8(before), encode_utf8(kept));
                lemma_feeds_of_joined(encode_utf8(before + kept), encode_utf8(blank));
                lemma_feeds_of_parts(bytes, prev, at, span.0 as int);
                lemma_feeds_of_parts(bytes, prev, span.0 as int, span.1 as int);
            },
        }
    }
}

/// The replacement of a match that keeps its lines holds as many line feeds
/// as the match.
pub proof fn lemma_replacement_keeps_feeds(text: &str, groups: Seq<Option<(usize, usize)>>)
    requires
        groups.len() > 0,
        groups[0] is Some,
        forall|g: int|
            0 <= g < groups.len() && (#[trigger] groups[g]) is Some ==> span_fits(
                groups[g].unwrap(),
                text,
            ),
        keeps_lines(text@, groups),
    ensures
        feeds(encode_utf8(replacement_of(text@, groups))) == feeds(
            encode_utf8(text@).subrange(whole_of(groups).0 as int, whole_of(groups).1 as int),
        ),
{
    let whole = whole_of(groups);
    assert(span_fits(groups[0].unwrap(), text));
    if groups.len() == 1 {
        lemma_blank_keeps_feeds(text@, whole.0 as int, whole.1 as int);
    } else {
        lemma_groups_keep_feeds(text, groups, whole.0 as int, groups.len() as int);
    }
}

/// The text up to the end of match `n - 1`, blanked, holds as many line
/// feeds as the text up to there.
pub proof fn lemma_blanked_upto_keeps_feeds(
    text: &str,
    matches: Seq<Vec<Option<(usize, usize)>>>,
    n: int,
)
    requires
        0 <= n <= matches.len(),
        groups_fit(matches, text),
        spans_in_sequence(wholes_of(matches), text),
        forall|i: int| 0 <= i < matches.len() ==> keeps_lines(text@, #[trigger] matches[i]@),
    ensures
        ({
            let end = if n == 0 {
                0
            } else {
                whole_of(matches[n - 1]@).1 as int
            };
            &&& on_boundary(text@, end)
            &&& feeds(encode_utf8(blanked_upto(text@, groups_of(matches), n))) == feeds(
                encode_utf8(text@).subrange(0, end),
            )
        }),
    decreases n,
{
    let bytes = encode_utf8(text@);
    let ms = groups_of(matches);
    lemma_ends_are_boundaries(text@);
    if n == 0 {
        assert(bytes.subrange(0, 0) =~= Seq::<u8>::empty());
        assert(encode_utf8(Seq::<char>::empty()) =~= Seq::<u8>::empty());
    } else {
        lemma_blanked_upto_keeps_feeds(text, matches, n - 1);
        let from = if n == 1 {
            0
        } else {
            whole_of(ms[n - 2]).1 as int
        };
        let groups = ms[n - 1];
        assert(groups == matches[n - 1]@);
        let whole = whole_of(groups);
        assert(wholes_of(matches)[n - 1] == whole);
        assert(span_fits(wholes_of(matches)[n - 1], text));
        if n > 1 {
            assert(wholes_of(matches)[n - 2].1 <= wholes_of(matches)[n - 1].0);
        }
        let before = blanked_upto(text@, ms, n - 1);
        let kept = byte_slice(text@, from, whole.0 as int);
        let replaced = replacement_of(text@, groups);
        lemma_encoding_of_slice(text@, from, whole.0 as int);
        assert(keeps_lines(text@, matches[n - 1]@));
        lemma_replacement_keeps_feeds(text, groups);
        lemma_encoding_of_joined(before, kept);
        lemma_encoding_of_joined(before + kept, replaced);
        lemma_feeds_of_joined(encode_utf8(before), encode_utf8(kept));
        lemma_feeds_of_joined(encode_utf8(before + kept), encode_utf8(replaced));
        lemma_feeds_of_parts(bytes, 0, from, whole.0 as int);
        lemma_feeds_of_parts(bytes, 0, whole.0 as int, whole.1 as int);
    }
}

/// Blanking keeps the number of line feeds: if every match keeps its lines,
/// the blanked text holds as many line feeds as the text.
pub proof fn lemma_blanking_keeps_line_feeds(text: &str, matches: Seq<Vec<Option<(usize, usize)>>>)
    requires
        groups_fit(matches, text),
        spans_in_sequence(wholes_of(matches), text),
        forall|i: int| 0 <= i < matches.len() ==> keeps_lines(text@, #[trigger] matches[i]@),
    ensures
        feeds(encode_utf8(blanked(text@, groups_of(matches)))) == feeds(encode_utf8(text@)),
{
    let bytes = encode_utf8(text@);
    let ms = groups_of(matches);
    let n = matches.len() as int;
    lemma_blanked_upto_keeps_feeds(text, matches, n);
    lemma_ends_are_boundaries(text@);
    let from = if n == 0 {
        0
    } else {
        whole_of(ms.last()).1 as int
    };
    if n > 0 {
        assert(ms.last() == matches[n - 1]@);
        assert(wholes_of(matches)[n - 1] == whole_of(ms.last()));
        assert(span_fits(wholes_of(matches)[n - 1], text));
    }
    let before = blanked_upto(text@, ms, n);
    let rest = byte_slice(text@, from, byte_len(text@) as int);
    lemma_encoding_of_slice(text@, from, byte_len(text@) as int);
    lemma_encoding_of_joined(before, rest);
    lemma_feeds_of_joined(encode_utf8(before), encode_utf8(rest));
    lemma_feeds_of_parts(bytes, 0, from, bytes.len() as int);
    assert(bytes.subrange(0, bytes.len() as int) =~= bytes);
}

} // verus!
