//! Offsets into a text, counted in bytes and in characters.

use vstd::prelude::*;
use crate::text::{byte_len, on_boundary};

verus! {

/// How many characters of the text start before byte `n`.
pub open spec fn starts_before(text: Seq<char>, n: int) -> nat
    decreases n,
{
    if n <= 0 {
        0
    } else if on_boundary(text, n - 1) {
        starts_before(text, n - 1) + 1
    } else {
        starts_before(text, n - 1)
    }
}

/// The 1-based character offset of a 1-based byte offset, on the text or
/// just behind its end: one more than the number of characters that start
/// before it.
pub fn byte_off_to_unicode_off(s: &str, byte_off: usize) -> (r: usize)
    requires
        1 <= byte_off <= byte_len(s@) + 1,
    ensures
        r == starts_before(s@, byte_off - 1) + 1,
{
    let mut count: usize = 0;
    let mut i: usize = 0;
    while i < byte_off - 1
        invariant
            byte_off >= 1,
            i <= byte_off - 1,
            count <= i,
            count == starts_before(s@, i as int),
        decreases byte_off - 1 - i,
    {
        if s.is_char_boundary(i) {
            proof {
                lemma_boundary_in_text(s@, i as int);
            }
            count += 1;
        }
        i += 1;
    }
    count + 1
}

/// A boundary lies within the text.
pub proof fn lemma_boundary_in_text(text: Seq<char>, at: int)
    requires
        at >= 0,
        vstd::utf8::is_char_boundary(vstd::utf8::encode_utf8(text), at),
    ensures
        on_boundary(text, at),
{
    vstd::utf8::encode_utf8_valid_utf8(text);
    let bytes = vstd::utf8::encode_utf8(text);
    if at > bytes.len() {
        reveal_with_fuel(vstd::utf8::is_char_boundary, 2);
    }
}

} // verus!
