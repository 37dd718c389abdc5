//! The query and the scoring record of one candidate against one query.

use vstd::prelude::*;
use crate::candidate::{characters_of, characters_of_text, forms_seq, Candidate, CandidateModel};
use crate::character::{same_chars, Character, CharacterForms};
use crate::small::chars_of;

verus! {

/// What a `Word` holds, as mathematical values.
pub struct WordModel {
    pub characters: Seq<CharacterForms>,
    pub text: Seq<char>,
}

/// A query: its text and its characters.
#[derive(Debug, PartialEq)]
pub struct Word<'a> {
    pub characters: Vec<Character>,
    pub text: &'a str,
}

impl<'a> View for Word<'a> {
    type V = WordModel;

    open spec fn view(&self) -> WordModel {
        WordModel { characters: forms_seq(self.characters@), text: self.text@ }
    }
}

impl<'a> Word<'a> {
    /// Splits the text into its characters.
    pub fn new(text: &'a str) -> (r: Self)
        ensures
            r@ == (WordModel { characters: characters_of_text(text@), text: text@ }),
    {
        Word { characters: characters_of(text), text }
    }
}

/// What a `QueryResult` holds, as mathematical values. A record without a
/// candidate or a query counts as one with the empty candidate or query.
pub struct QueryResultModel {
    pub is_subsequence: bool,
    pub query_is_prefix: bool,
    pub first_char_is_same: bool,
    pub char_match_index_sum: nat,
    pub num_wb_matches: nat,
    pub candidate: CandidateModel,
    pub query: WordModel,
}

/// How one candidate scores against one query. It borrows both, and lives
/// only while candidates are filtered and sorted.
#[derive(Clone, Copy, Debug, PartialEq)]
pub struct QueryResult<'a, 'b> {
    pub is_subsequence: bool,
    pub query_is_prefix: bool,
    pub first_char_is_same: bool,
    pub char_match_index_sum: u128,
    pub num_wb_matches: usize,
    pub candidate: Option<&'a Candidate<'a>>,
    pub query: Option<&'b Word<'b>>,
}

/// The candidate without characters.
pub open spec fn empty_candidate() -> CandidateModel {
    CandidateModel {
        characters: Seq::empty(),
        word_boundary_chars: Seq::empty(),
        text_is_lowercase: true,
        case_swapped: Seq::empty(),
        text: Seq::empty(),
    }
}

/// The query without characters.
pub open spec fn empty_word() -> WordModel {
    WordModel { characters: Seq::empty(), text: Seq::empty() }
}

/// The record of a candidate that does not match.
pub open spec fn no_match() -> QueryResultModel {
    QueryResultModel {
        is_subsequence: false,
        query_is_prefix: false,
        first_char_is_same: false,
        char_match_index_sum: 0,
        num_wb_matches: 0,
        candidate: empty_candidate(),
        query: empty_word(),
    }
}

impl<'a, 'b> View for QueryResult<'a, 'b> {
    type V = QueryResultModel;

    open spec fn view(&self) -> QueryResultModel {
        QueryResultModel {
            is_subsequence: self.is_subsequence,
            query_is_prefix: self.query_is_prefix,
            first_char_is_same: self.first_char_is_same,
            char_match_index_sum: self.char_match_index_sum as nat,
            num_wb_matches: self.num_wb_matches as nat,
            candidate: match self.candidate {
                Some(c) => c@,
                None => empty_candidate(),
            },
            query: match self.query {
                Some(q) => q@,
                None => empty_word(),
            },
        }
    }
}

/// The base form of each character.
pub open spec fn bases_of(chars: Seq<CharacterForms>) -> Seq<Seq<char>> {
    Seq::new(chars.len(), |i: int| chars[i].base)
}

/// The length of a longest common subsequence of two sequences.
pub open spec fn lcs_len(a: Seq<Seq<char>>, b: Seq<Seq<char>>) -> nat
    decreases a.len() + b.len(),
{
    if a.len() == 0 || b.len() == 0 {
        0
    } else if a.last() == b.last() {
        1 + lcs_len(a.drop_last(), b.drop_last())
    } else {
        let left = lcs_len(a, b.drop_last());
        let up = lcs_len(a.drop_last(), b);
        if left > up {
            left
        } else {
            up
        }
    }
}

/// A longest common subsequence is no longer than either sequence.
pub proof fn lemma_lcs_len_bounded(a: Seq<Seq<char>>, b: Seq<Seq<char>>)
    ensures
        lcs_len(a, b) <= a.len(),
        lcs_len(a, b) <= b.len(),
    decreases a.len() + b.len(),
{
    if a.len() == 0 || b.len() == 0 {
    } else if a.last() == b.last() {
        lemma_lcs_len_bounded(a.drop_last(), b.drop_last());
    } else {
        lemma_lcs_len_bounded(a, b.drop_last());
        lemma_lcs_len_bounded(a.drop_last(), b);
    }
}

/// Builds the table of `lcs::LcsTable::new` for two character vectors, the
/// characters compared by their base forms, and counts the pairs that
/// `longest_common_subsequence` returns. Not proved: that this count is the
/// length of a longest common subsequence of the base forms.
#[verifier::external_body]
pub(crate) fn longest_common_subsequence_len(a: &Vec<Character>, b: &Vec<Character>) -> (r: usize)
    ensures
        r == lcs_len(bases_of(forms_seq(a@)), bases_of(forms_seq(b@))),
{
    lcs::LcsTable::new(a.as_slice(), b.as_slice()).longest_common_subsequence().len()
}

/// Whether candidate and query both have a first character, with the same
/// base form.
pub open spec fn first_char_same(candidate: CandidateModel, query: WordModel) -> bool {
    &&& candidate.characters.len() > 0
    &&& query.characters.len() > 0
    &&& candidate.characters[0].base == query.characters[0].base
}

/// How many characters of the query line up, in order, with word boundaries
/// of the candidate.
pub open spec fn word_boundary_matches(candidate: CandidateModel, query: WordModel) -> nat {
    if candidate.characters.len() == 0 || query.characters.len() == 0 {
        0
    } else {
        lcs_len(bases_of(candidate.word_boundary_chars), bases_of(query.characters))
    }
}

impl<'a, 'b> QueryResult<'a, 'b> {
    /// The record for `candidate` against `query`, from the three values that
    /// the scan found; the other two scores are computed here.
    pub fn new(
        is_subsequence: bool,
        query_is_prefix: bool,
        char_match_index_sum: u128,
        candidate: &'a Candidate<'a>,
        query: &'b Word<'b>,
    ) -> (r: Self)
        ensures
            r@ == (QueryResultModel {
                is_subsequence,
                query_is_prefix,
                first_char_is_same: first_char_same(candidate@, query@),
                char_match_index_sum: char_match_index_sum as nat,
                num_wb_matches: word_boundary_matches(candidate@, query@),
                candidate: candidate@,
                query: query@,
            }),
            r.candidate == Some(candidate),
            r.query == Some(query),
    {
        let (num_wb_matches, first_char_is_same) = if candidate.is_empty()
            || query.characters.len() == 0 {
            (0, false)
        } else {
            let first_char_is_same = same_chars(
                chars_of(&candidate.characters[0].base),
                chars_of(&query.characters[0].base),
            );
            let num_wb_matches = longest_common_subsequence_len(
                &candidate.word_boundary_chars,
                &query.characters,
            );
            (num_wb_matches, first_char_is_same)
        };
        QueryResult {
            is_subsequence,
            query_is_prefix,
            first_char_is_same,
            char_match_index_sum,
            num_wb_matches,
            candidate: Some(candidate),
            query: Some(query),
        }
    }
}

impl<'a, 'b> Default for QueryResult<'a, 'b> {
    /// The record of a candidate that does not match.
    fn default() -> (r: Self)
        ensures
            r@ == no_match(),
            r.candidate is None,
            r.query is None,
    {
        QueryResult {
            is_subsequence: false,
            query_is_prefix: false,
            first_char_is_same: false,
            char_match_index_sum: 0,
            num_wb_matches: 0,
            candidate: None,
            query: None,
        }
    }
}

} // verus!
