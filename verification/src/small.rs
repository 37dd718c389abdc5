//! Short sequences of code points, kept in place where they are short
//! enough.

use vstd::prelude::*;
use smallvec::SmallVec;

verus! {

/// A short sequence of code points: a `smallvec::SmallVec` that keeps up to
/// two of them in place. Nothing is proved of what is inside; `chars_in`
/// names what it holds.
#[verifier::external_body]
#[derive(Debug)]
pub struct Chars {
    inner: SmallVec<[char; 2]>,
}

/// The code points that a short sequence holds, in order.
pub uninterp spec fn chars_in(v: Chars) -> Seq<char>;

/// Calls `SmallVec::new`. Not proved: that the sequence holds nothing.
#[verifier::external_body]
pub(crate) fn new_chars() -> (r: Chars)
    ensures
        chars_in(r) == Seq::<char>::empty(),
{
    Chars { inner: SmallVec::new() }
}

/// Calls `SmallVec::push`. Not proved: that the code point is added at the
/// end.
#[verifier::external_body]
pub(crate) fn push_char(v: &mut Chars, c: char)
    ensures
        chars_in(*final(v)) == chars_in(*old(v)).push(c),
{
    v.inner.push(c)
}

/// Calls `SmallVec::as_slice`. Not proved: that the slice holds what the
/// sequence holds.
#[verifier::external_body]
pub(crate) fn chars_of(v: &Chars) -> (r: &[char])
    ensures
        r@ == chars_in(*v),
{
    v.inner.as_slice()
}

impl Chars {
    /// The code points, copied out.
    pub fn to_vec(&self) -> (r: Vec<char>)
        ensures
            r@ == chars_in(*self),
    {
        let held = chars_of(self);
        let mut r: Vec<char> = Vec::new();
        let mut i: usize = 0;
        while i < held.len()
            invariant
                i <= held@.len(),
                r@ == held@.take(i as int),
            decreases held.len() - i,
        {
            r.push(held[i]);
            assert(held@.take(i + 1) =~= held@.take(i as int).push(held@[i as int]));
            i += 1;
        }
        assert(held@.take(held@.len() as int) =~= held@);
        r
    }

    /// A copy that holds the same code points.
    pub fn duplicate(&self) -> (r: Chars)
        ensures
            chars_in(r) == chars_in(*self),
    {
        let mut r = new_chars();
        r.append(chars_of(self));
        r
    }

    /// Adds the code points of `src` at the end.
    pub fn append(&mut self, src: &[char])
        ensures
            chars_in(*final(self)) == chars_in(*old(self)) + src@,
    {
        let mut i: usize = 0;
        assert(chars_in(*self) =~= chars_in(*old(self)) + src@.take(0));
        while i < src.len()
            invariant
                i <= src@.len(),
                chars_in(*self) == chars_in(*old(self)) + src@.take(i as int),
            decreases src.len() - i,
        {
            push_char(self, src[i]);
            assert(src@.take(i + 1) =~= src@.take(i as int).push(src@[i as int]));
            i += 1;
        }
        assert(src@.take(src@.len() as int) =~= src@);
    }
}

} // verus!
