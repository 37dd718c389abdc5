//! The subsequence test: does a query occur in a candidate, character by
//! character in order, under smart equality, and where.

use vstd::prelude::*;
use crate::candidate::{forms_seq, Candidate, CandidateModel};
use crate::character::{smart_eq, CharacterForms};
use crate::query::{
    first_char_same, no_match, word_boundary_matches, QueryResult, QueryResultModel, Word,
    WordModel,
};

verus! {

/// The first position at or after `from` where the candidate has a character
/// that `q` matches; the candidate's length if there is none.
pub open spec fn next_match(q: CharacterForms, c: Seq<CharacterForms>, from: int) -> int
    decreases c.len() - from,
{
    if from >= c.len() {
        c.len() as int
    } else if smart_eq(q, c[from]) {
        from
    } else {
        next_match(q, c, from + 1)
    }
}

/// Where the leftmost embedding of the query puts its character `k`: the
/// first match after the place of character `k - 1`. The candidate's length
/// stands for "nowhere".
pub open spec fn leftmost(q: Seq<CharacterForms>, c: Seq<CharacterForms>, k: int) -> int
    decreases k + 1,
{
    if k < 0 {
        -1
    } else {
        next_match(q[k], c, leftmost(q, c, k - 1) + 1)
    }
}

/// The sum of the places of the first `k` query characters in the leftmost
/// embedding.
pub open spec fn leftmost_sum(q: Seq<CharacterForms>, c: Seq<CharacterForms>, k: int) -> int
    decreases k,
{
    if k <= 0 {
        0
    } else {
        leftmost_sum(q, c, k - 1) + leftmost(q, c, k - 1)
    }
}

/// The query occurs in the candidate: its last character has a place.
pub open spec fn occurs_in(q: Seq<CharacterForms>, c: Seq<CharacterForms>) -> bool {
    leftmost(q, c, q.len() - 1) < c.len()
}

/// The query occurs at the very start of the candidate: its last character
/// is placed right where it stands in the query.
pub open spec fn occurs_as_prefix(q: Seq<CharacterForms>, c: Seq<CharacterForms>) -> bool {
    leftmost(q, c, q.len() - 1) == q.len() - 1
}

/// The record that scanning `candidate` for `query` gives.
pub open spec fn match_of(candidate: CandidateModel, query: WordModel) -> QueryResultModel {
    let q = query.characters;
    let c = candidate.characters;
    if occurs_in(q, c) {
        QueryResultModel {
            is_subsequence: true,
            query_is_prefix: occurs_as_prefix(q, c),
            first_char_is_same: first_char_same(candidate, query),
            char_match_index_sum: leftmost_sum(q, c, q.len() as int) as nat,
            num_wb_matches: word_boundary_matches(candidate, query),
            candidate,
            query,
        }
    } else {
        no_match()
    }
}

/// An embedding of the query into the candidate: one place for each query
/// character, the places strictly increasing, each holding a character that
/// the query character matches.
pub open spec fn is_embedding(q: Seq<CharacterForms>, c: Seq<CharacterForms>, at: Seq<int>) -> bool {
    &&& at.len() == q.len()
    &&& forall|k: int| 0 <= k < at.len() ==> 0 <= #[trigger] at[k] < c.len()
    &&& forall|k: int| 0 <= k < at.len() ==> smart_eq(q[k], c[#[trigger] at[k]])
    &&& forall|j: int, k: int| 0 <= j < k < at.len() ==> #[trigger] at[j] < #[trigger] at[k]
}

/// `next_match` stays within the candidate and does not go backwards.
pub proof fn lemma_next_match_range(q: CharacterForms, c: Seq<CharacterForms>, from: int)
    requires
        0 <= from,
    ensures
        from <= c.len() ==> from <= next_match(q, c, from) <= c.len(),
        from >= c.len() ==> next_match(q, c, from) == c.len(),
        next_match(q, c, from) < c.len() ==> smart_eq(q, c[next_match(q, c, from)]),
    decreases c.len() - from,
{
    if from < c.len() && !smart_eq(q, c[from]) {
        lemma_next_match_range(q, c, from + 1);
    }
}

/// No character between `from` and `next_match` is matched.
pub proof fn lemma_next_match_least(q: CharacterForms, c: Seq<CharacterForms>, from: int, j: int)
    requires
        0 <= from <= j < next_match(q, c, from),
        j < c.len(),
    ensures
        !smart_eq(q, c[j]),
    decreases c.len() - from,
{
    if from < c.len() && !smart_eq(q, c[from]) {
        if from < j {
            lemma_next_match_least(q, c, from + 1, j);
        }
    }
}

/// The places of the leftmost embedding lie between -1 and the candidate's
/// length, and each found place holds a match.
pub proof fn lemma_leftmost_range(q: Seq<CharacterForms>, c: Seq<CharacterForms>, k: int)
    requires
        k < q.len(),
    ensures
        -1 <= leftmost(q, c, k) <= c.len(),
        k >= 0 ==> leftmost(q, c, k) >= 0,
        k >= 0 && leftmost(q, c, k) < c.len() ==> smart_eq(q[k], c[leftmost(q, c, k)]),
        k >= 0 && leftmost(q, c, k) < c.len() ==> leftmost(q, c, k - 1) < leftmost(q, c, k),
        k >= 0 && leftmost(q, c, k - 1) >= c.len() ==> leftmost(q, c, k) == c.len(),
        leftmost(q, c, k) >= k || leftmost(q, c, k) == c.len(),
    decreases k + 1,
{
    if k >= 0 {
        lemma_leftmost_range(q, c, k - 1);
        lemma_next_match_range(q[k], c, leftmost(q, c, k - 1) + 1);
    }
}

/// Once a query character has no place, none after it has one.
pub proof fn lemma_leftmost_stays_lost(q: Seq<CharacterForms>, c: Seq<CharacterForms>, j: int, k: int)
    requires
        0 <= j <= k < q.len(),
        leftmost(q, c, j) >= c.len(),
    ensures
        leftmost(q, c, k) == c.len(),
    decreases k - j,
{
    lemma_leftmost_range(q, c, j);
    if j < k {
        lemma_leftmost_range(q, c, j + 1);
        lemma_leftmost_stays_lost(q, c, j + 1, k);
    }
}

/// If the last query character has a place, every earlier one has a place
/// before it.
pub proof fn lemma_leftmost_increasing(q: Seq<CharacterForms>, c: Seq<CharacterForms>, j: int, k: int)
    requires
        -1 <= j < k < q.len(),
        leftmost(q, c, k) < c.len(),
    ensures
        leftmost(q, c, j) < leftmost(q, c, k),
    decreases k - j,
{
    lemma_leftmost_range(q, c, k);
    if j < k - 1 {
        if leftmost(q, c, k - 1) >= c.len() {
            lemma_leftmost_range(q, c, k - 1);
        }
        lemma_leftmost_increasing(q, c, j, k - 1);
    }
}

/// The leftmost embedding is at or before any other embedding, place by
/// place.
pub proof fn lemma_leftmost_is_least(q: Seq<CharacterForms>, c: Seq<CharacterForms>, at: Seq<int>, k: int)
    requires
        is_embedding(q, c, at),
        -1 <= k < q.len(),
    ensures
        k >= 0 ==> leftmost(q, c, k) <= at[k],
    decreases k + 1,
{
    if k >= 0 {
        lemma_leftmost_is_least(q, c, at, k - 1);
        lemma_leftmost_range(q, c, k - 1);
        let from = leftmost(q, c, k - 1) + 1;
        assert(from <= at[k]) by {
            if k > 0 {
                assert(at[k - 1] < at[k]);
            }
        }
        lemma_next_match_range(q[k], c, from);
        if next_match(q[k], c, from) > at[k] {
            lemma_next_match_least(q[k], c, from, at[k]);
        }
    }
}

/// The record says "subsequence" exactly when the query can be embedded in
/// the candidate: its characters occur there in order, each matched under
/// smart equality.
pub proof fn lemma_subsequence_iff_embedding(candidate: CandidateModel, query: WordModel)
    ensures
        match_of(candidate, query).is_subsequence <==> exists|at: Seq<int>|
            is_embedding(query.characters, candidate.characters, at),
{
    let q = query.characters;
    let c = candidate.characters;
    if occurs_in(q, c) {
        let at = Seq::new(q.len(), |k: int| leftmost(q, c, k));
        assert forall|k: int| 0 <= k < at.len() implies 0 <= #[trigger] at[k] < c.len() && smart_eq(
            q[k],
            c[at[k]],
        ) by {
            lemma_leftmost_range(q, c, k);
            if k < q.len() - 1 {
                lemma_leftmost_increasing(q, c, k, q.len() - 1);
            }
        }
        assert forall|j: int, k: int| 0 <= j < k < at.len() implies #[trigger] at[j]
            < #[trigger] at[k] by {
            if k < q.len() - 1 {
                lemma_leftmost_increasing(q, c, k, q.len() - 1);
            }
            lemma_leftmost_increasing(q, c, j, k);
        }
        assert(is_embedding(q, c, at));
    } else {
        assert forall|at: Seq<int>| !is_embedding(q, c, at) by {
            if is_embedding(q, c, at) {
                lemma_leftmost_is_least(q, c, at, q.len() - 1);
                if q.len() > 0 {
                    assert(at[q.len() - 1] < c.len());
                }
            }
        }
    }
}

/// The empty query occurs in every candidate, as a prefix, with nothing to
/// sum.
pub proof fn lemma_empty_query_matches(candidate: CandidateModel, query: WordModel)
    requires
        query.characters.len() == 0,
    ensures
        match_of(candidate, query).is_subsequence,
        match_of(candidate, query).query_is_prefix,
        match_of(candidate, query).char_match_index_sum == 0,
{
}

/// The query is marked as a prefix exactly when each of its characters
/// matches the candidate's character at the same position.
pub proof fn lemma_prefix_iff_aligned(q: Seq<CharacterForms>, c: Seq<CharacterForms>)
    requires
        occurs_in(q, c),
    ensures
        occurs_as_prefix(q, c) <==> (q.len() <= c.len() && forall|k: int|
            0 <= k < q.len() ==> smart_eq(#[trigger] q[k], c[k])),
{
    if occurs_as_prefix(q, c) {
        assert forall|k: int| 0 <= k < q.len() implies smart_eq(#[trigger] q[k], c[k]) by {
            lemma_aligned_below(q, c, k);
            lemma_leftmost_range(q, c, k);
        }
    }
    if q.len() <= c.len() && forall|k: int| 0 <= k < q.len() ==> smart_eq(#[trigger] q[k], c[k]) {
        lemma_aligned_leftmost(q, c, q.len() - 1);
    }
}

/// In a leftmost embedding that ends where the query ends, every character
/// stands at its own position.
proof fn lemma_aligned_below(q: Seq<CharacterForms>, c: Seq<CharacterForms>, k: int)
    requires
        occurs_in(q, c),
        occurs_as_prefix(q, c),
        -1 <= k < q.len(),
    ensures
        leftmost(q, c, k) == k,
    decreases q.len() - k,
{
    lemma_leftmost_range(q, c, k);
    if k < q.len() - 1 {
        lemma_aligned_below(q, c, k + 1);
        lemma_leftmost_range(q, c, k + 1);
    }
}

/// Where the candidate's first characters match the query's one by one, the
/// leftmost embedding uses exactly those positions.
proof fn lemma_aligned_leftmost(q: Seq<CharacterForms>, c: Seq<CharacterForms>, k: int)
    requires
        -1 <= k < q.len(),
        q.len() <= c.len(),
        forall|j: int| 0 <= j < q.len() ==> smart_eq(#[trigger] q[j], c[j]),
    ensures
        leftmost(q, c, k) == k,
    decreases k + 1,
{
    if k >= 0 {
        lemma_aligned_leftmost(q, c, k - 1);
        assert(smart_eq(q[k], c[k]));
    }
}

impl<'a> Candidate<'a> {
    /// Scans the candidate once, left to right, for the characters of the
    /// query in order. Gives the populated record if all were found, the
    /// record of no match otherwise.
    pub fn matches_query<'c, 'b>(&'c self, q: &'b Word<'b>) -> (r: QueryResult<'c, 'b>)
        ensures
            r@ == match_of(self@, q@),
            r.is_subsequence ==> r.candidate == Some(self) && r.query == Some(q),
            !r.is_subsequence ==> r.candidate is None && r.query is None,
    {
        let ghost qs = forms_seq(q.characters@);
        let ghost cs = forms_seq(self.characters@);
        let mut k: usize = 0;
        let mut i: usize = 0;
        let mut match_index_sum: u128 = 0;
        let mut is_prefix = true;
        proof {
            lemma_leftmost_range(qs, cs, -1);
        }
        while i < self.characters.len() && k < q.characters.len()
            invariant
                qs == forms_seq(q.characters@),
                cs == forms_seq(self.characters@),
                k <= q.characters.len(),
                i <= self.characters.len(),
                k <= i,
                leftmost(qs, cs, k - 1) + 1 <= i,
                k < qs.len() ==> leftmost(qs, cs, k as int) == next_match(qs[k as int], cs, i as int),
                match_index_sum == leftmost_sum(qs, cs, k as int),
                match_index_sum <= i * i,
                k == qs.len() ==> i == leftmost(qs, cs, k - 1) + 1,
                is_prefix == (k == i),
            decreases self.characters.len() - i,
        {
            let qc = &q.characters[k];
            let cc = &self.characters[i];
            assert(qc@ == qs[k as int] && cc@ == cs[i as int]);
            assert(i * i + i <= (i + 1) * (i + 1) && i * i + i
                <= 0xffff_ffff_ffff_ffff_ffff_ffff_ffff_ffff) by (nonlinear_arith)
                requires
                    0 <= i <= 0xffff_ffff_ffff_ffff,
            ;
            if qc.smartcaseeq(cc) {
                match_index_sum = match_index_sum + (i as u128);
                k += 1;
                proof {
                    lemma_leftmost_range(qs, cs, k - 1);
                }
            } else {
                is_prefix = false;
                proof {
                    lemma_leftmost_range(qs, cs, k - 1);
                }
            }
            i += 1;
        }
        proof {
            if k < qs.len() {
                lemma_next_match_range(qs[k as int], cs, i as int);
                lemma_leftmost_stays_lost(qs, cs, k as int, qs.len() - 1);
            } else {
                lemma_leftmost_range(qs, cs, k - 1);
            }
        }
        if k == q.characters.len() {
            QueryResult::new(true, is_prefix, match_index_sum, self, q)
        } else {
            QueryResult::default()
        }
    }
}

} // verus!
