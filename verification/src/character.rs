//! One user-perceived character with its precomputed forms, and the smart
//! equality that the matcher uses.

use vstd::prelude::*;
use crate::small::{chars_in, chars_of, new_chars, push_char, Chars};
use crate::unicode::{
    alphabetic_property, ascii_punctuation, break_kind, break_kind_of, is_alphabetic,
    is_ascii_punctuation, is_lowercase, is_whitespace, lowercase_of,
    lowercase_property, nfd, nfd_of, to_lowercase, to_uppercase, uppercase_of,
    uppercase_property, whitespace_property, BreakKind,
};

verus! {

/// What a `Character` holds, as mathematical values.
pub struct CharacterForms {
    pub normal: Seq<char>,
    pub base: Seq<char>,
    pub folded_case: Seq<char>,
    pub swapped_case: Seq<char>,
    pub is_base: bool,
    pub is_uppercase: bool,
    pub is_punctuation: bool,
    pub is_letter: bool,
}

/// A grapheme cluster with its decomposed, base, case-folded and case-swapped
/// forms and its classification flags.
#[derive(Debug)]
pub struct Character {
    pub normal: Chars,
    pub base: Chars,
    pub folded_case: Chars,
    pub swapped_case: Chars,
    pub is_base: bool,
    pub is_uppercase: bool,
    pub is_punctuation: bool,
    pub is_letter: bool,
}

/// The reason `Character::new` gives for refusing its input: there was no
/// code point in it.
#[derive(Clone, Copy, Debug, PartialEq, Eq, Structural)]
pub struct MalformedGrapheme;

impl View for Character {
    type V = CharacterForms;

    open spec fn view(&self) -> CharacterForms {
        CharacterForms {
            normal: chars_in(self.normal),
            base: chars_in(self.base),
            folded_case: chars_in(self.folded_case),
            swapped_case: chars_in(self.swapped_case),
            is_base: self.is_base,
            is_uppercase: self.is_uppercase,
            is_punctuation: self.is_punctuation,
            is_letter: self.is_letter,
        }
    }
}

/// A code point takes part in the base form unless it is a combining mark or
/// a separator: one that breaks before, after or on both sides, or a space.
pub open spec fn joins_base(c: char) -> bool {
    break_kind_of(c) == BreakKind::Other
}

/// What one code point adds to the base form.
pub open spec fn base_piece(c: char) -> Seq<char> {
    if joins_base(c) {
        lowercase_of(c)
    } else {
        Seq::empty()
    }
}

/// What one code point adds to the case-swapped form: its uppercase mapping
/// if it is lowercase, its lowercase mapping otherwise.
pub open spec fn swapped_piece(c: char) -> Seq<char> {
    if lowercase_property(c) {
        uppercase_of(c)
    } else {
        lowercase_of(c)
    }
}

/// The base form of a decomposed character.
pub open spec fn base_form(normal: Seq<char>) -> Seq<char>
    decreases normal.len(),
{
    if normal.len() == 0 {
        Seq::empty()
    } else {
        base_form(normal.drop_last()) + base_piece(normal.last())
    }
}

/// The case-folded form of a decomposed character.
pub open spec fn folded_form(normal: Seq<char>) -> Seq<char>
    decreases normal.len(),
{
    if normal.len() == 0 {
        Seq::empty()
    } else {
        folded_form(normal.drop_last()) + lowercase_of(normal.last())
    }
}

/// The case-swapped form of a decomposed character.
pub open spec fn swapped_form(normal: Seq<char>) -> Seq<char>
    decreases normal.len(),
{
    if normal.len() == 0 {
        Seq::empty()
    } else {
        swapped_form(normal.drop_last()) + swapped_piece(normal.last())
    }
}

/// Punctuation, for the matcher: ASCII punctuation or white space.
pub open spec fn punctuation(c: char) -> bool {
    ascii_punctuation(c) || whitespace_property(c)
}

/// All forms and flags of the character whose decomposition is `normal`.
pub open spec fn forms_of(normal: Seq<char>) -> CharacterForms {
    CharacterForms {
        normal,
        base: base_form(normal),
        folded_case: folded_form(normal),
        swapped_case: swapped_form(normal),
        is_base: normal.len() > 0 && joins_base(normal.last()),
        is_uppercase: exists|i: int| 0 <= i < normal.len() && uppercase_property(#[trigger] normal[i]),
        is_punctuation: exists|i: int| 0 <= i < normal.len() && punctuation(#[trigger] normal[i]),
        is_letter: exists|i: int| 0 <= i < normal.len() && alphabetic_property(#[trigger] normal[i]),
    }
}

/// Smart equality of a query character `a` with a candidate character `b`:
/// base match where an uppercase query asks for an uppercase candidate, or
/// case-insensitive match for a query without uppercase, or exact match.
pub open spec fn smart_eq(a: CharacterForms, b: CharacterForms) -> bool {
    ||| a.is_base && a.base == b.base && (!a.is_uppercase || b.is_uppercase)
    ||| !a.is_uppercase && a.folded_case == b.folded_case
    ||| a.normal == b.normal
}

/// Whether two slices hold the same code points.
pub fn same_chars(a: &[char], b: &[char]) -> (r: bool)
    ensures
        r == (a@ == b@),
{
    if a.len() != b.len() {
        return false;
    }
    let mut i: usize = 0;
    while i < a.len()
        invariant
            a@.len() == b@.len(),
            i <= a@.len(),
            forall|j: int| 0 <= j < i ==> a@[j] == b@[j],
        decreases a.len() - i,
    {
        if a[i] != b[i] {
            return false;
        }
        i += 1;
    }
    assert(a@ =~= b@);
    true
}

/// Appends the code points of `src` to `dst`.
pub fn append_chars(dst: &mut Vec<char>, src: &[char])
    ensures
        final(dst)@ == old(dst)@ + src@,
{
    let mut i: usize = 0;
    assert(dst@ =~= old(dst)@ + src@.take(0));
    while i < src.len()
        invariant
            i <= src@.len(),
            dst@ == old(dst)@ + src@.take(i as int),
        decreases src.len() - i,
    {
        dst.push(src[i]);
        assert(src@.take(i + 1) =~= src@.take(i as int).push(src@[i as int]));
        i += 1;
    }
    assert(src@.take(src@.len() as int) =~= src@);
}

impl Character {
    /// Builds the character of one grapheme cluster: decomposes it and
    /// derives every form and flag from the decomposition. An empty input is
    /// refused, and nothing else is.
    pub fn new(character: &str) -> (r: Result<Character, MalformedGrapheme>)
        ensures
            r is Err <==> character@.len() == 0,
            r is Ok ==> r->Ok_0@ == forms_of(nfd_of(character@)),
    {
        if character.is_empty() {
            return Err(MalformedGrapheme);
        }
        let decomposed = nfd(character);
        let mut is_base = false;
        let mut normal = new_chars();
        let mut folded_case = new_chars();
        let mut swapped_case = new_chars();
        let mut base = new_chars();
        let mut is_uppercase = false;
        let mut is_punctuation = false;
        let mut is_letter = false;
        let mut i: usize = 0;
        assert(chars_in(normal) =~= decomposed@.take(0));
        while i < decomposed.len()
            invariant
                i <= decomposed.len(),
                chars_in(normal) == decomposed@.take(i as int),
                chars_in(base) == base_form(decomposed@.take(i as int)),
                chars_in(folded_case) == folded_form(decomposed@.take(i as int)),
                chars_in(swapped_case) == swapped_form(decomposed@.take(i as int)),
                is_base == (i > 0 && joins_base(decomposed@[i - 1])),
                is_uppercase == exists|j: int|
                    0 <= j < i && uppercase_property(#[trigger] decomposed@[j]),
                is_punctuation == exists|j: int| 0 <= j < i && punctuation(#[trigger] decomposed@[j]),
                is_letter == exists|j: int|
                    0 <= j < i && alphabetic_property(#[trigger] decomposed@[j]),
            decreases decomposed.len() - i,
        {
            let c = decomposed[i];
            proof {
                let next = decomposed@.take(i + 1);
                assert(next.drop_last() =~= decomposed@.take(i as int));
                assert(next.last() == c);
                assert(next =~= decomposed@.take(i as int).push(c));
            }
            push_char(&mut normal, c);
            let lower = to_lowercase(c);
            match break_kind(c) {
                BreakKind::Other => {
                    is_base = true;
                    base.append(lower.as_slice());
                },
                _ => {
                    is_base = false;
                },
            }
            let upper_here = crate::unicode::is_uppercase(c);
            let punct_here = is_ascii_punctuation(c) || is_whitespace(c);
            let letter_here = is_alphabetic(c);
            is_uppercase = is_uppercase || upper_here;
            is_punctuation = is_punctuation || punct_here;
            is_letter = is_letter || letter_here;
            folded_case.append(lower.as_slice());
            if is_lowercase(c) {
                let upper = to_uppercase(c);
                swapped_case.append(upper.as_slice());
            } else {
                swapped_case.append(lower.as_slice());
            }
            i += 1;
        }
        assert(decomposed@.take(decomposed.len() as int) =~= decomposed@);
        Ok(Character {
            is_base,
            normal,
            base,
            folded_case,
            swapped_case,
            is_uppercase,
            is_punctuation,
            is_letter,
        })
    }

    /// Smart base matching on top of smart case matching, `self` being the
    /// query's character:
    ///  - e matches e, é, E, É;
    ///  - E matches E, É but not e, é;
    ///  - é matches é, É but not e, E.
    pub fn smartcaseeq(&self, other: &Self) -> (r: bool)
        ensures
            r == smart_eq(self@, other@),
    {
        let by_base = self.is_base && same_chars(chars_of(&self.base), chars_of(&other.base))
            && (!self.is_uppercase || other.is_uppercase);
        let by_case = !self.is_uppercase && same_chars(
            chars_of(&self.folded_case),
            chars_of(&other.folded_case),
        );
        by_base || by_case || same_chars(chars_of(&self.normal), chars_of(&other.normal))
    }

    /// A copy with the same forms and flags.
    pub fn duplicate(&self) -> (r: Character)
        ensures
            r@ == self@,
    {
        Character {
            normal: self.normal.duplicate(),
            base: self.base.duplicate(),
            folded_case: self.folded_case.duplicate(),
            swapped_case: self.swapped_case.duplicate(),
            is_base: self.is_base,
            is_uppercase: self.is_uppercase,
            is_punctuation: self.is_punctuation,
            is_letter: self.is_letter,
        }
    }
}

impl Clone for Character {
    fn clone(&self) -> (r: Self)
        ensures
            r@ == self@,
    {
        self.duplicate()
    }
}

impl PartialEq for Character {
    /// Two characters are equal, for ordering purposes, when their base forms
    /// are.
    fn eq(&self, other: &Self) -> (r: bool) {
        same_chars(chars_of(&self.base), chars_of(&other.base))
    }
}

impl Eq for Character {

}

impl vstd::std_specs::cmp::PartialEqSpecImpl for Character {
    open spec fn obeys_eq_spec() -> bool {
        true
    }

    open spec fn eq_spec(&self, other: &Self) -> bool {
        chars_in(self.base) == chars_in(other.base)
    }
}

/// Every character matches itself under smart equality.
pub proof fn lemma_smart_eq_reflexive(c: CharacterForms)
    ensures
        smart_eq(c, c),
{
}

/// A character whose flag says uppercase has an uppercase code point in its
/// decomposition.
pub proof fn lemma_uppercase_has_witness(normal: Seq<char>)
    requires
        forms_of(normal).is_uppercase,
    ensures
        exists|i: int| 0 <= i < normal.len() && uppercase_property(#[trigger] normal[i]),
{
}

} // verus!
