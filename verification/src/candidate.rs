//! A candidate string prepared for ranking: its characters, the characters
//! that start a word, and its tie-breaking key.

use vstd::prelude::*;
use crate::character::{append_chars, forms_of, Character, CharacterForms};
use crate::small::chars_of;
use crate::unicode::{grapheme_clusters_of, graphemes, nfd_of, views_of};

verus! {

/// What a `Candidate` holds, as mathematical values.
pub struct CandidateModel {
    pub characters: Seq<CharacterForms>,
    pub word_boundary_chars: Seq<CharacterForms>,
    pub text_is_lowercase: bool,
    pub case_swapped: Seq<char>,
    pub text: Seq<char>,
}

/// A string that can be offered as a completion, with what ranking needs
/// precomputed.
#[derive(Debug, PartialEq)]
pub struct Candidate<'a> {
    pub characters: Vec<Character>,
    pub word_boundary_chars: Vec<Character>,
    pub text_is_lowercase: bool,
    pub case_swapped: Vec<char>,
    pub text: &'a str,
}

/// The forms of each character of a vector.
pub open spec fn forms_seq(chars: Seq<Character>) -> Seq<CharacterForms> {
    Seq::new(chars.len(), |i: int| chars[i]@)
}

/// The characters of a text: one per extended grapheme cluster.
pub open spec fn characters_of_text(text: Seq<char>) -> Seq<CharacterForms> {
    let clusters = grapheme_clusters_of(text);
    Seq::new(clusters.len(), |i: int| forms_of(nfd_of(clusters[i])))
}

/// Position `i` starts a word: the first character unless it is punctuation,
/// a later one where punctuation ends or where uppercase begins.
pub open spec fn is_word_boundary(chars: Seq<CharacterForms>, i: int) -> bool {
    if i == 0 {
        !chars[0].is_punctuation
    } else {
        ||| chars[i - 1].is_punctuation && !chars[i].is_punctuation
        ||| !chars[i - 1].is_uppercase && chars[i].is_uppercase
    }
}

/// The characters at the word boundaries among the first `n`, in order.
pub open spec fn word_boundaries_upto(chars: Seq<CharacterForms>, n: int) -> Seq<CharacterForms>
    decreases n,
{
    if n <= 0 {
        Seq::empty()
    } else if is_word_boundary(chars, n - 1) {
        word_boundaries_upto(chars, n - 1).push(chars[n - 1])
    } else {
        word_boundaries_upto(chars, n - 1)
    }
}

/// The characters at the word boundaries, in order.
pub open spec fn word_boundaries(chars: Seq<CharacterForms>) -> Seq<CharacterForms> {
    word_boundaries_upto(chars, chars.len() as int)
}

/// The case-swapped forms of the first `n` characters, joined.
pub open spec fn case_swapped_upto(chars: Seq<CharacterForms>, n: int) -> Seq<char>
    decreases n,
{
    if n <= 0 {
        Seq::empty()
    } else {
        case_swapped_upto(chars, n - 1) + chars[n - 1].swapped_case
    }
}

/// No character has an uppercase code point.
pub open spec fn all_lowercase(chars: Seq<CharacterForms>) -> bool {
    forall|i: int| 0 <= i < chars.len() ==> !(#[trigger] chars[i]).is_uppercase
}

/// The candidate that a text gives.
pub open spec fn candidate_of(text: Seq<char>) -> CandidateModel {
    let chars = characters_of_text(text);
    CandidateModel {
        characters: chars,
        word_boundary_chars: word_boundaries(chars),
        text_is_lowercase: all_lowercase(chars),
        case_swapped: case_swapped_upto(chars, chars.len() as int),
        text,
    }
}

/// Splits a text into grapheme clusters and builds the character of each.
pub fn characters_of(text: &str) -> (r: Vec<Character>)
    ensures
        forms_seq(r@) == characters_of_text(text@),
{
    let clusters = graphemes(text);
    let mut r: Vec<Character> = Vec::new();
    let mut i: usize = 0;
    assert(views_of(clusters@).len() == clusters@.len());
    while i < clusters.len()
        invariant
            i <= clusters.len(),
            r@.len() == i,
            views_of(clusters@) == grapheme_clusters_of(text@),
            forall|j: int| 0 <= j < clusters@.len() ==> (#[trigger] clusters@[j])@.len() > 0,
            forall|j: int| 0 <= j < i ==> (#[trigger] r@[j])@ == forms_of(nfd_of(clusters@[j]@)),
        decreases clusters.len() - i,
    {
        match Character::new(clusters[i].as_str()) {
            Ok(c) => {
                r.push(c);
            },
            Err(_) => {
                assert(clusters@[i as int]@.len() > 0);
                assert(false);
            },
        }
        i += 1;
    }
    proof {
        let want = characters_of_text(text@);
        assert(want.len() == r@.len());
        assert forall|j: int| 0 <= j < r@.len() implies forms_seq(r@)[j] == want[j] by {
            assert(views_of(clusters@)[j] == clusters@[j]@);
        }
        assert(forms_seq(r@) =~= want);
    }
    r
}

impl<'a> View for Candidate<'a> {
    type V = CandidateModel;

    open spec fn view(&self) -> CandidateModel {
        CandidateModel {
            characters: forms_seq(self.characters@),
            word_boundary_chars: forms_seq(self.word_boundary_chars@),
            text_is_lowercase: self.text_is_lowercase,
            case_swapped: self.case_swapped@,
            text: self.text@,
        }
    }
}

impl<'a> Candidate<'a> {
    /// Prepares a text for ranking.
    pub fn new(s: &'a str) -> (r: Self)
        ensures
            r@ == candidate_of(s@),
    {
        let characters = characters_of(s);
        let ghost chars = forms_seq(characters@);
        let mut word_boundary_chars: Vec<Character> = Vec::new();
        let mut case_swapped: Vec<char> = Vec::new();
        let mut text_is_lowercase = true;
        let mut i: usize = 0;
        while i < characters.len()
            invariant
                i <= characters.len(),
                chars == forms_seq(characters@),
                forms_seq(word_boundary_chars@) == word_boundaries_upto(chars, i as int),
                case_swapped@ == case_swapped_upto(chars, i as int),
                text_is_lowercase == forall|j: int| 0 <= j < i ==> !(#[trigger] chars[j]).is_uppercase,
            decreases characters.len() - i,
        {
            let current = &characters[i];
            assert(current@ == chars[i as int]);
            let starts_word = if i == 0 {
                !current.is_punctuation
            } else {
                let prev = &characters[i - 1];
                assert(prev@ == chars[i - 1]);
                (prev.is_punctuation && !current.is_punctuation) || (!prev.is_uppercase
                    && current.is_uppercase)
            };
            if starts_word {
                let ghost before = forms_seq(word_boundary_chars@);
                word_boundary_chars.push(current.duplicate());
                assert(forms_seq(word_boundary_chars@) =~= before.push(chars[i as int]));
            }
            if current.is_uppercase {
                text_is_lowercase = false;
            }
            append_chars(&mut case_swapped, chars_of(&current.swapped_case));
            i += 1;
        }
        let r = Candidate { characters, word_boundary_chars, text_is_lowercase, case_swapped, text: s };
        assert(r@.characters == characters_of_text(s@));
        r
    }

    /// Whether the candidate has no character.
    pub fn is_empty(&self) -> (r: bool)
        ensures
            r == (self@.characters.len() == 0),
    {
        self.characters.len() == 0
    }
}

} // verus!
