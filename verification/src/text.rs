//! Strings by byte offset: comparing two texts and cutting a piece out of
//! one, between two character boundaries.

use vstd::prelude::*;
use vstd::string::StringSliceAdditionalSpecFns;
use vstd::utf8::{
    decode_utf8, encode_utf8, encode_utf8_decode_utf8, encode_utf8_valid_utf8, is_char_boundary,
    is_char_boundary_iff_not_is_continuation_byte,
    is_char_boundary_start_end_of_seq, is_continuation_byte, is_leading_byte_width_1,
    length_of_first_scalar, valid_utf8, valid_utf8_split,
};

verus! {

/// The number of bytes of the UTF-8 encoding of a text.
pub open spec fn byte_len(text: Seq<char>) -> nat {
    encode_utf8(text).len()
}

/// The byte offset is a character boundary of the text; its end is one.
pub open spec fn on_boundary(text: Seq<char>, at: int) -> bool {
    0 <= at <= byte_len(text) && is_char_boundary(encode_utf8(text), at)
}

/// The piece of a text between two byte offsets.
pub open spec fn byte_slice(text: Seq<char>, from: int, to: int) -> Seq<char> {
    decode_utf8(encode_utf8(text).subrange(from, to))
}

/// A boundary of a text is a boundary of each prefix that reaches it.
pub proof fn lemma_boundary_in_prefix(bytes: Seq<u8>, from: int, to: int)
    requires
        valid_utf8(bytes),
        0 <= from <= to <= bytes.len(),
        is_char_boundary(bytes, from),
        is_char_boundary(bytes, to),
    ensures
        valid_utf8(bytes.subrange(0, to)),
        is_char_boundary(bytes.subrange(0, to), from),
{
    let head = bytes.subrange(0, to);
    valid_utf8_split(bytes, to);
    if from < to {
        is_char_boundary_iff_not_is_continuation_byte(bytes, from);
        is_char_boundary_iff_not_is_continuation_byte(head, from);
    } else {
        is_char_boundary_start_end_of_seq(head);
    }
}

/// The start and the end of a text are boundaries.
pub proof fn lemma_ends_are_boundaries(text: Seq<char>)
    ensures
        on_boundary(text, 0),
        on_boundary(text, byte_len(text) as int),
        byte_slice(text, 0, byte_len(text) as int) == text,
{
    encode_utf8_valid_utf8(text);
    is_char_boundary_start_end_of_seq(encode_utf8(text));
    encode_utf8_decode_utf8(text);
    assert(encode_utf8(text).subrange(0, byte_len(text) as int) =~= encode_utf8(text));
}

/// A piece of a text that is cut in two at a boundary is its two parts, one
/// after the other.
pub proof fn lemma_slice_of_parts(text: Seq<char>, from: int, mid: int, to: int)
    requires
        from <= mid <= to,
        on_boundary(text, from),
        on_boundary(text, mid),
        on_boundary(text, to),
    ensures
        byte_slice(text, from, to) == byte_slice(text, from, mid) + byte_slice(text, mid, to),
{
    let bytes = encode_utf8(text);
    encode_utf8_valid_utf8(text);
    lemma_boundary_in_prefix(bytes, from, to);
    let head = bytes.subrange(0, to);
    valid_utf8_split(head, from);
    let piece = head.subrange(from, to);
    assert(piece =~= bytes.subrange(from, to));
    lemma_boundary_in_prefix(bytes, mid, to);
    assert(is_char_boundary(piece, mid - from)) by {
        if mid == from {
        } else if mid < to {
            is_char_boundary_iff_not_is_continuation_byte(head, mid);
            is_char_boundary_iff_not_is_continuation_byte(piece, mid - from);
        } else {
            is_char_boundary_start_end_of_seq(piece);
        }
    }
    vstd::utf8::decode_utf8_split(piece, mid - from);
    assert(piece.subrange(0, mid - from) =~= bytes.subrange(from, mid));
    assert(piece.subrange(mid - from, piece.len() as int) =~= bytes.subrange(mid, to));
}

/// A byte below 128 stands for one character by itself: there is a boundary
/// before it and one behind it.
pub proof fn lemma_ascii_boundaries(bytes: Seq<u8>, i: int)
    requires
        valid_utf8(bytes),
        0 <= i < bytes.len(),
        bytes[i] < 128,
    ensures
        is_char_boundary(bytes, i),
        is_char_boundary(bytes, i + 1),
{
    let b = bytes[i];
    assert(!is_continuation_byte(b) && is_leading_byte_width_1(b)) by (bit_vector)
        requires
            b < 128,
    ;
    is_char_boundary_iff_not_is_continuation_byte(bytes, i);
    valid_utf8_split(bytes, i);
    let rest = bytes.subrange(i, bytes.len() as int);
    assert(rest[0] == b);
    assert(length_of_first_scalar(rest) == 1);
    assert(is_char_boundary(rest, 1)) by {
        reveal_with_fuel(is_char_boundary, 2);
    }
    if i + 1 < bytes.len() {
        is_char_boundary_iff_not_is_continuation_byte(rest, 1);
        assert(rest[1] == bytes[i + 1]);
        is_char_boundary_iff_not_is_continuation_byte(bytes, i + 1);
    } else {
        is_char_boundary_start_end_of_seq(bytes);
    }
}

/// The number of bytes of a string.
pub fn byte_length(text: &str) -> (n: usize)
    ensures
        n == byte_len(text@),
{
    text.as_bytes().len()
}

/// Whether two strings hold the same text.
pub fn same_text(a: &str, b: &str) -> (r: bool)
    ensures
        r == (a@ == b@),
{
    let x = a.as_bytes();
    let y = b.as_bytes();
    proof {
        encode_utf8_decode_utf8(a@);
        encode_utf8_decode_utf8(b@);
    }
    if x.len() != y.len() {
        return false;
    }
    let mut i: usize = 0;
    while i < x.len()
        invariant
            x@ == encode_utf8(a@),
            y@ == encode_utf8(b@),
            x@.len() == y@.len(),
            i <= x@.len(),
            forall|j: int| 0 <= j < i ==> x@[j] == y@[j],
        decreases x.len() - i,
    {
        if x[i] != y[i] {
            return false;
        }
        i += 1;
    }
    assert(x@ =~= y@);
    true
}

/// The piece of a string between two byte offsets, both character
/// boundaries.
pub fn slice<'a>(text: &'a str, from: usize, to: usize) -> (r: &'a str)
    requires
        from <= to,
        on_boundary(text@, from as int),
        on_boundary(text@, to as int),
    ensures
        r@ == byte_slice(text@, from as int, to as int),
        r.spec_bytes() == text.spec_bytes().subrange(from as int, to as int),
{
    proof {
        encode_utf8_valid_utf8(text@);
        lemma_boundary_in_prefix(text.spec_bytes(), from as int, to as int);
    }
    let (head, _) = text.split_at(to);
    let (_, piece) = head.split_at(from);
    proof {
        encode_utf8_decode_utf8(piece@);
        assert(head.spec_bytes().subrange(from as int, head.spec_bytes().len() as int)
            =~= text.spec_bytes().subrange(from as int, to as int));
    }
    piece
}

/// The first position at or after `from` that holds the byte `sep`; the
/// length if none does.
pub open spec fn next_byte(bytes: Seq<u8>, sep: u8, from: int) -> int
    decreases bytes.len() - from,
{
    if from >= bytes.len() {
        bytes.len() as int
    } else if bytes[from] == sep {
        from
    } else {
        next_byte(bytes, sep, from + 1)
    }
}

/// The pieces of a text from byte `from` on, cut at each byte `sep`. There
/// is always at least one piece; a separator at the very end is followed by
/// an empty one.
pub open spec fn pieces_from(text: Seq<char>, sep: u8, from: int) -> Seq<Seq<char>>
    decreases byte_len(text) - from,
{
    let end = next_byte(encode_utf8(text), sep, from);
    if from < 0 || end >= byte_len(text) || end < from {
        seq![byte_slice(text, from, byte_len(text) as int)]
    } else {
        seq![byte_slice(text, from, end)] + pieces_from(text, sep, end + 1)
    }
}

/// The pieces of a text, cut at each byte `sep`.
pub open spec fn pieces_of(text: Seq<char>, sep: u8) -> Seq<Seq<char>> {
    pieces_from(text, sep, 0)
}

/// Finds the first position at or after `from` that holds the byte `sep`, a
/// byte below 128.
pub fn find_byte(text: &str, sep: u8, from: usize) -> (r: usize)
    requires
        sep < 128,
        from <= byte_len(text@),
    ensures
        r == next_byte(text.spec_bytes(), sep, from as int),
        from <= r <= byte_len(text@),
        on_boundary(text@, r as int),
        r < byte_len(text@) ==> on_boundary(text@, r + 1),
{
    let bytes = text.as_bytes();
    let mut i: usize = from;
    proof {
        encode_utf8_valid_utf8(text@);
        lemma_ends_are_boundaries(text@);
    }
    while i < bytes.len()
        invariant
            from <= i <= bytes.len(),
            bytes@ == encode_utf8(text@),
            valid_utf8(bytes@),
            sep < 128,
            next_byte(bytes@, sep, from as int) == next_byte(bytes@, sep, i as int),
        decreases bytes.len() - i,
    {
        if bytes[i] == sep {
            proof {
                lemma_ascii_boundaries(bytes@, i as int);
            }
            return i;
        }
        i += 1;
    }
    i
}

/// Cuts a text at each byte `sep`, a byte below 128.
pub fn split_on(text: &str, sep: u8) -> (r: Vec<String>)
    requires
        sep < 128,
    ensures
        Seq::new(r@.len(), |i: int| r@[i]@) == pieces_of(text@, sep),
{
    let len = byte_length(text);
    let mut pieces: Vec<String> = Vec::new();
    let mut from: usize = 0;
    let ghost mut done: Seq<Seq<char>> = Seq::empty();
    proof {
        lemma_ends_are_boundaries(text@);
    }
    loop
        invariant_except_break
            done == Seq::new(pieces@.len(), |i: int| pieces@[i]@),
            pieces_of(text@, sep) == done + pieces_from(text@, sep, from as int),
        invariant
            sep < 128,
            len == byte_len(text@),
            from <= len,
            on_boundary(text@, from as int),
            on_boundary(text@, len as int),
        ensures
            Seq::new(pieces@.len(), |i: int| pieces@[i]@) == pieces_of(text@, sep),
        decreases len - from,
    {
        let end = find_byte(text, sep, from);
        if end >= len {
            let mut last = String::new();
            vstd::string::StringExecFns::append(&mut last, slice(text, from, len));
            pieces.push(last);
            proof {
                let now = Seq::new(pieces@.len(), |i: int| pieces@[i]@);
                assert(now =~= done + seq![byte_slice(text@, from as int, len as int)]);
            }
            break;
        }
        let mut piece = String::new();
        vstd::string::StringExecFns::append(&mut piece, slice(text, from, end));
        pieces.push(piece);
        proof {
            let now = Seq::new(pieces@.len(), |i: int| pieces@[i]@);
            let head = seq![byte_slice(text@, from as int, end as int)];
            assert(now =~= done + head);
            assert((done + head) + pieces_from(text@, sep, end + 1) =~= done + (head + pieces_from(
                text@,
                sep,
                end + 1,
            )));
            done = now;
        }
        from = end + 1;
    }
    pieces
}

/// The text starts with the bytes of `prefix`.
pub open spec fn starts_with(text: Seq<char>, prefix: Seq<char>) -> bool {
    let bytes = encode_utf8(text);
    let head = encode_utf8(prefix);
    head.len() <= bytes.len() && bytes.subrange(0, head.len() as int) == head
}

/// What follows `prefix` in a text that starts with it.
pub open spec fn after_prefix(text: Seq<char>, prefix: Seq<char>) -> Seq<char> {
    byte_slice(text, byte_len(prefix) as int, byte_len(text) as int)
}

/// What follows `prefix` in the text, if the text starts with it.
pub fn strip_prefix<'a>(text: &'a str, prefix: &str) -> (r: Option<&'a str>)
    ensures
        r is Some == starts_with(text@, prefix@),
        r is Some ==> r.unwrap()@ == after_prefix(text@, prefix@),
{
    let bytes = text.as_bytes();
    let head = prefix.as_bytes();
    if head.len() > bytes.len() {
        return None;
    }
    let mut i: usize = 0;
    while i < head.len()
        invariant
            i <= head.len() <= bytes.len(),
            bytes@ == encode_utf8(text@),
            head@ == encode_utf8(prefix@),
            forall|j: int| 0 <= j < i ==> bytes@[j] == head@[j],
        decreases head.len() - i,
    {
        if bytes[i] != head[i] {
            assert(bytes@.subrange(0, head@.len() as int)[i as int] != head@[i as int]);
            return None;
        }
        i += 1;
    }
    assert(bytes@.subrange(0, head@.len() as int) =~= head@);
    if !text.is_char_boundary(head.len()) {
        proof {
            lemma_prefix_ends_on_boundary(text@, prefix@);
        }
        return None;
    }
    proof {
        lemma_ends_are_boundaries(text@);
    }
    Some(slice(text, head.len(), bytes.len()))
}

/// Where a text starts with the bytes of another text, that start ends on a
/// character boundary.
pub proof fn lemma_prefix_ends_on_boundary(text: Seq<char>, prefix: Seq<char>)
    requires
        starts_with(text, prefix),
    ensures
        on_boundary(text, byte_len(prefix) as int),
{
    let bytes = encode_utf8(text);
    let head = encode_utf8(prefix);
    encode_utf8_valid_utf8(text);
    encode_utf8_valid_utf8(prefix);
    if head.len() < bytes.len() {
        // The byte behind the prefix would otherwise continue a character
        // that the prefix leaves unfinished.
        lemma_valid_prefix_boundary(bytes, head.len() as int);
    } else {
        is_char_boundary_start_end_of_seq(bytes);
    }
}

/// A valid text whose first `n` bytes are valid by themselves has a
/// boundary at `n`.
pub proof fn lemma_valid_prefix_boundary(bytes: Seq<u8>, n: int)
    requires
        valid_utf8(bytes),
        0 <= n <= bytes.len(),
        valid_utf8(bytes.subrange(0, n)),
    ensures
        is_char_boundary(bytes, n),
    decreases bytes.len(),
{
    if n == 0 {
    } else {
        let head = bytes.subrange(0, n);
        reveal_with_fuel(valid_utf8, 2);
        reveal_with_fuel(is_char_boundary, 2);
        let width = length_of_first_scalar(bytes);
        assert(length_of_first_scalar(head) == width);
        assert(vstd::utf8::pop_first_scalar(head) =~= vstd::utf8::pop_first_scalar(
            bytes,
        ).subrange(0, n - width));
        lemma_valid_prefix_boundary(vstd::utf8::pop_first_scalar(bytes), n - width);
    }
}

} // verus!
