//! The order in which matching candidates are offered: a chain of criteria,
//! earlier ones dominating, that ends in a comparison of the case-swapped
//! texts.

use vstd::prelude::*;
use crate::query::{QueryResult, QueryResultModel, WordModel};

verus! {

/// The outcome of comparing two values: the first comes before the second,
/// ties with it, or comes after it.
#[derive(Clone, Copy, Debug, PartialEq, Eq, Structural)]
pub enum Order {
    Less,
    Equal,
    Greater,
}

impl Order {
    /// This outcome unless it is a tie; then the next criterion decides.
    pub open spec fn otherwise(self, next: Order) -> Order {
        if self == Order::Equal {
            next
        } else {
            self
        }
    }

    /// The outcome with the two sides exchanged.
    pub open spec fn flipped(self) -> Order {
        match self {
            Order::Less => Order::Greater,
            Order::Equal => Order::Equal,
            Order::Greater => Order::Less,
        }
    }
}

/// The side on which the flag holds comes first.
pub open spec fn flag_first(a: bool, b: bool) -> Order {
    if a == b {
        Order::Equal
    } else if a {
        Order::Less
    } else {
        Order::Greater
    }
}

/// The side with the smaller number comes first.
pub open spec fn smaller_first(a: nat, b: nat) -> Order {
    if a < b {
        Order::Less
    } else if a == b {
        Order::Equal
    } else {
        Order::Greater
    }
}

/// The side with the larger number comes first.
pub open spec fn larger_first(a: nat, b: nat) -> Order {
    smaller_first(b, a)
}

/// Lexicographic order of two sequences of code points, from position `i`
/// on: the first difference decides, by code point; without one, the shorter
/// sequence comes first.
pub open spec fn lexicographic_from(a: Seq<char>, b: Seq<char>, i: int) -> Order
    decreases a.len() - i,
{
    if i >= a.len() {
        if i >= b.len() {
            Order::Equal
        } else {
            Order::Less
        }
    } else if i >= b.len() {
        Order::Greater
    } else if a[i] < b[i] {
        Order::Less
    } else if a[i] > b[i] {
        Order::Greater
    } else {
        lexicographic_from(a, b, i + 1)
    }
}

/// Lexicographic order of two sequences of code points.
pub open spec fn lexicographic(a: Seq<char>, b: Seq<char>) -> Order {
    lexicographic_from(a, b, 0)
}

/// Every character of the query lines up with a word boundary of the
/// candidate.
pub open spec fn covers_query(r: QueryResultModel) -> bool {
    r.num_wb_matches == r.query.characters.len()
}

/// The criteria that apply when the query is not empty, before the final
/// tie-break.
pub open spec fn rank_by_scores(a: QueryResultModel, b: QueryResultModel) -> Order {
    let wb = larger_first(a.num_wb_matches, b.num_wb_matches);
    let wb_len = smaller_first(
        a.candidate.word_boundary_chars.len(),
        b.candidate.word_boundary_chars.len(),
    );
    flag_first(a.first_char_is_same, b.first_char_is_same).otherwise(
        if covers_query(a) || covers_query(b) {
            wb.otherwise(wb_len)
        } else {
            Order::Equal
        },
    ).otherwise(flag_first(a.query_is_prefix, b.query_is_prefix)).otherwise(wb).otherwise(
        wb_len,
    ).otherwise(smaller_first(a.char_match_index_sum, b.char_match_index_sum)).otherwise(
        smaller_first(a.candidate.characters.len(), b.candidate.characters.len()),
    ).otherwise(flag_first(a.candidate.text_is_lowercase, b.candidate.text_is_lowercase))
}

/// The rank of `a` against `b`: `Less` where `a` is offered first. With an
/// empty query text on `a`'s side only the case-swapped texts are compared.
pub open spec fn rank(a: QueryResultModel, b: QueryResultModel) -> Order {
    let last = lexicographic(a.candidate.case_swapped, b.candidate.case_swapped);
    if a.query.text.len() != 0 {
        rank_by_scores(a, b).otherwise(last)
    } else {
        last
    }
}

/// Compares two vectors of code points lexicographically.
pub fn lexicographic_order(a: &Vec<char>, b: &Vec<char>) -> (r: Order)
    ensures
        r == lexicographic(a@, b@),
{
    let mut i: usize = 0;
    while i < a.len() && i < b.len()
        invariant
            i <= a.len(),
            i <= b.len(),
            lexicographic(a@, b@) == lexicographic_from(a@, b@, i as int),
        decreases a.len() - i,
    {
        let x = a[i];
        let y = b[i];
        if x < y {
            return Order::Less;
        }
        if x > y {
            return Order::Greater;
        }
        i += 1;
    }
    if i < b.len() {
        Order::Less
    } else if i < a.len() {
        Order::Greater
    } else {
        Order::Equal
    }
}

/// Which of two flags comes first.
pub fn order_flags(a: bool, b: bool) -> (r: Order)
    ensures
        r == flag_first(a, b),
{
    if a == b {
        Order::Equal
    } else if a {
        Order::Less
    } else {
        Order::Greater
    }
}

/// Which of two sizes comes first, the smaller one leading.
pub fn order_sizes(a: usize, b: usize) -> (r: Order)
    ensures
        r == smaller_first(a as nat, b as nat),
{
    if a < b {
        Order::Less
    } else if a == b {
        Order::Equal
    } else {
        Order::Greater
    }
}

impl<'a, 'b> QueryResult<'a, 'b> {
    /// The number of word-boundary characters of the candidate.
    pub fn word_boundary_count(&self) -> (r: usize)
        ensures
            r == self@.candidate.word_boundary_chars.len(),
    {
        match self.candidate {
            Some(c) => c.word_boundary_chars.len(),
            None => 0,
        }
    }

    /// The number of characters of the candidate.
    pub fn candidate_len(&self) -> (r: usize)
        ensures
            r == self@.candidate.characters.len(),
    {
        match self.candidate {
            Some(c) => c.characters.len(),
            None => 0,
        }
    }

    /// Whether the candidate has no uppercase character.
    pub fn candidate_is_lowercase(&self) -> (r: bool)
        ensures
            r == self@.candidate.text_is_lowercase,
    {
        match self.candidate {
            Some(c) => c.text_is_lowercase,
            None => true,
        }
    }

    /// The number of characters of the query.
    pub fn query_len(&self) -> (r: usize)
        ensures
            r == self@.query.characters.len(),
    {
        match self.query {
            Some(q) => q.characters.len(),
            None => 0,
        }
    }

    /// Whether the query text is empty.
    pub fn query_is_empty(&self) -> (r: bool)
        ensures
            r == (self@.query.text.len() == 0),
    {
        match self.query {
            Some(q) => q.text.is_empty(),
            None => true,
        }
    }

    /// Compares the case-swapped texts of the two candidates.
    pub fn order_case_swapped(&self, other: &Self) -> (r: Order)
        ensures
            r == lexicographic(self@.candidate.case_swapped, other@.candidate.case_swapped),
    {
        let none: Vec<char> = Vec::new();
        let mine = match self.candidate {
            Some(c) => &c.case_swapped,
            None => &none,
        };
        let theirs = match other.candidate {
            Some(c) => &c.case_swapped,
            None => &none,
        };
        lexicographic_order(mine, theirs)
    }

    /// The rank of this record against another: `Less` where this one is
    /// offered first.
    pub fn rank_against(&self, other: &Self) -> (r: Order)
        ensures
            r == rank(self@, other@),
    {
        if !self.query_is_empty() {
            let first = order_flags(self.first_char_is_same, other.first_char_is_same);
            if first != Order::Equal {
                return first;
            }
            let wb = order_sizes(other.num_wb_matches, self.num_wb_matches);
            let wb_len = order_sizes(self.word_boundary_count(), other.word_boundary_count());
            if self.num_wb_matches == self.query_len() || other.num_wb_matches
                == other.query_len() {
                if wb != Order::Equal {
                    return wb;
                }
                if wb_len != Order::Equal {
                    return wb_len;
                }
            }
            let prefix = order_flags(self.query_is_prefix, other.query_is_prefix);
            if prefix != Order::Equal {
                return prefix;
            }
            if wb != Order::Equal {
                return wb;
            }
            if wb_len != Order::Equal {
                return wb_len;
            }
            let sum = if self.char_match_index_sum < other.char_match_index_sum {
                Order::Less
            } else if self.char_match_index_sum == other.char_match_index_sum {
                Order::Equal
            } else {
                Order::Greater
            };
            if sum != Order::Equal {
                return sum;
            }
            let len = order_sizes(self.candidate_len(), other.candidate_len());
            if len != Order::Equal {
                return len;
            }
            let lower = order_flags(
                self.candidate_is_lowercase(),
                other.candidate_is_lowercase(),
            );
            if lower != Order::Equal {
                return lower;
            }
        }
        self.order_case_swapped(other)
    }
}

/// Exchanging the sides of a lexicographic comparison flips its outcome.
pub proof fn lemma_lexicographic_flips(a: Seq<char>, b: Seq<char>, i: int)
    requires
        0 <= i,
    ensures
        lexicographic_from(b, a, i) == lexicographic_from(a, b, i).flipped(),
    decreases a.len() - i,
{
    if i < a.len() && i < b.len() && a[i] == b[i] {
        lemma_lexicographic_flips(a, b, i + 1);
    }
}

/// Two sequences that agree before `i` tie from `i` on exactly when they are
/// the same sequence.
pub proof fn lemma_lexicographic_tie(a: Seq<char>, b: Seq<char>, i: int)
    requires
        0 <= i <= a.len(),
        i <= b.len(),
        forall|j: int| 0 <= j < i ==> a[j] == b[j],
    ensures
        lexicographic_from(a, b, i) == Order::Equal <==> a == b,
    decreases a.len() - i,
{
    if i < a.len() && i < b.len() {
        if a[i] == b[i] {
            lemma_lexicographic_tie(a, b, i + 1);
        }
    } else if i >= a.len() && i >= b.len() {
        assert(a =~= b);
    }
}

/// Lexicographic order is transitive: if `a` is not after `b` and `b` is not
/// after `c`, then `a` is not after `c`.
pub proof fn lemma_lexicographic_transitive(a: Seq<char>, b: Seq<char>, c: Seq<char>, i: int)
    requires
        0 <= i,
        lexicographic_from(a, b, i) != Order::Greater,
        lexicographic_from(b, c, i) != Order::Greater,
    ensures
        lexicographic_from(a, c, i) != Order::Greater,
    decreases a.len() - i,
{
    if i < a.len() && i < b.len() && i < c.len() && a[i] == b[i] && b[i] == c[i] {
        lemma_lexicographic_transitive(a, b, c, i + 1);
    }
}

/// Two records can be ranked against each other and against a third in a
/// consistent way: they were made for the same query, and neither claims
/// more word-boundary matches than the query has characters.
pub open spec fn comparable(a: QueryResultModel, b: QueryResultModel) -> bool {
    &&& a.query == b.query
    &&& a.num_wb_matches <= a.query.characters.len()
    &&& b.num_wb_matches <= b.query.characters.len()
}

/// Exchanging the two records flips their rank.
pub proof fn lemma_rank_flips(a: QueryResultModel, b: QueryResultModel)
    requires
        comparable(a, b),
    ensures
        rank(b, a) == rank(a, b).flipped(),
{
    lemma_lexicographic_flips(a.candidate.case_swapped, b.candidate.case_swapped, 0);
}

/// Records of one query tie only if their candidates have the same
/// case-swapped text.
pub proof fn lemma_rank_tie(a: QueryResultModel, b: QueryResultModel)
    requires
        rank(a, b) == Order::Equal,
    ensures
        a.candidate.case_swapped == b.candidate.case_swapped,
{
    lemma_lexicographic_tie(a.candidate.case_swapped, b.candidate.case_swapped, 0);
}

/// Rank is transitive on records of one query: if `a` is not after `b` and
/// `b` is not after `c`, then `a` is not after `c`.
pub proof fn lemma_rank_transitive(a: QueryResultModel, b: QueryResultModel, c: QueryResultModel)
    requires
        comparable(a, b),
        comparable(b, c),
        rank(a, b) != Order::Greater,
        rank(b, c) != Order::Greater,
    ensures
        rank(a, c) != Order::Greater,
{
    let x = a.candidate.case_swapped;
    let y = b.candidate.case_swapped;
    let z = c.candidate.case_swapped;
    lemma_lexicographic_tie(x, y, 0);
    lemma_lexicographic_tie(y, z, 0);
    lemma_lexicographic_tie(x, z, 0);
    lemma_lexicographic_flips(x, y, 0);
    lemma_lexicographic_flips(y, z, 0);
    if lexicographic(x, y) != Order::Greater && lexicographic(y, z) != Order::Greater {
        lemma_lexicographic_transitive(x, y, z, 0);
    }
    if a.query.text.len() != 0 {
        let ab = rank_by_scores(a, b);
        let bc = rank_by_scores(b, c);
        let ac = rank_by_scores(a, c);
        assert(ab != Order::Greater && bc != Order::Greater);
        assert(ac != Order::Greater);
        assert(ab == Order::Equal && bc == Order::Equal ==> ac == Order::Equal);
        assert(ab == Order::Less || bc == Order::Less ==> ac == Order::Less);
    }
}

/// The records of a sequence rank consistently: exchanging two flips their
/// rank, and "not after" is transitive. On such a sequence "is before" is a
/// strict weak order.
pub open spec fn ranks_consistently(s: Seq<QueryResultModel>) -> bool {
    &&& forall|i: int, j: int|
        0 <= i < s.len() && 0 <= j < s.len() ==> #[trigger] rank(s[j], s[i]) == rank(
            s[i],
            s[j],
        ).flipped()
    &&& forall|i: int, j: int, k: int|
        0 <= i < s.len() && 0 <= j < s.len() && 0 <= k < s.len() && #[trigger] rank(s[i], s[j])
            != Order::Greater && #[trigger] rank(s[j], s[k]) != Order::Greater ==> rank(s[i], s[k])
            != Order::Greater
}

/// Records that were all made for one query, with word-boundary matches
/// within its length, rank consistently.
pub proof fn lemma_one_query_ranks_consistently(s: Seq<QueryResultModel>, query: WordModel)
    requires
        forall|i: int|
            0 <= i < s.len() ==> (#[trigger] s[i]).query == query && s[i].num_wb_matches
                <= query.characters.len(),
    ensures
        ranks_consistently(s),
{
    assert forall|i: int, j: int| 0 <= i < s.len() && 0 <= j < s.len() implies #[trigger] rank(
        s[j],
        s[i],
    ) == rank(s[i], s[j]).flipped() by {
        lemma_rank_flips(s[i], s[j]);
    }
    assert forall|i: int, j: int, k: int|
        0 <= i < s.len() && 0 <= j < s.len() && 0 <= k < s.len() && #[trigger] rank(s[i], s[j])
            != Order::Greater && #[trigger] rank(s[j], s[k]) != Order::Greater implies rank(
        s[i],
        s[k],
    ) != Order::Greater by {
        lemma_rank_transitive(s[i], s[j], s[k]);
    }
}

} // verus!
