//! Filtering a pool of candidates by a query and bringing the best of them
//! to the front, in rank order.

use vstd::prelude::*;
use std::cmp::Ordering;
use partial_sort::PartialSort;
use crate::query::{QueryResult, QueryResultModel};
use crate::rank::{rank, ranks_consistently, Order};

verus! {

/// The outcome of a comparison in std's terms.
pub open spec fn std_order(o: Order) -> Ordering {
    match o {
        Order::Less => Ordering::Less,
        Order::Equal => Ordering::Equal,
        Order::Greater => Ordering::Greater,
    }
}

impl<'a, 'b> PartialOrd for QueryResult<'a, 'b> {
    /// The rank of this record against another, `Less` where this one is
    /// offered first. Any two records can be compared.
    fn partial_cmp(&self, other: &Self) -> (r: Option<Ordering>) {
        match self.rank_against(other) {
            Order::Less => Some(Ordering::Less),
            Order::Equal => Some(Ordering::Equal),
            Order::Greater => Some(Ordering::Greater),
        }
    }
}

impl<'a, 'b> vstd::std_specs::cmp::PartialOrdSpecImpl for QueryResult<'a, 'b> {
    open spec fn obeys_partial_cmp_spec() -> bool {
        true
    }

    open spec fn partial_cmp_spec(&self, other: &Self) -> Option<Ordering> {
        Some(std_order(rank(self@, other@)))
    }
}

/// A scoring record together with the position, in the pool, of the
/// candidate it was made for.
#[derive(Clone, Copy, Debug)]
pub struct Ranked<'a, 'b> {
    pub index: usize,
    pub result: QueryResult<'a, 'b>,
}

/// The scoring records of a sequence of ranked entries.
pub open spec fn records_of(entries: Seq<Ranked>) -> Seq<QueryResultModel> {
    Seq::new(entries.len(), |i: int| entries[i].result@)
}

/// The scoring records of a sequence of results.
pub open spec fn models_of(results: Seq<QueryResult>) -> Seq<QueryResultModel> {
    Seq::new(results.len(), |i: int| results[i]@)
}

/// `places` rearranges a sequence of length `n`: it names each position at
/// most once.
pub open spec fn is_rearrangement(places: Seq<int>, n: nat) -> bool {
    &&& places.len() == n
    &&& forall|i: int| 0 <= i < places.len() ==> 0 <= #[trigger] places[i] < n
    &&& forall|i: int, j: int|
        0 <= i < j < places.len() ==> #[trigger] places[i] != #[trigger] places[j]
}

/// The first `k` records are in rank order, and none of the others ranks
/// before any of them.
pub open spec fn best_first(s: Seq<QueryResultModel>, k: int) -> bool {
    &&& forall|i: int, j: int| 0 <= i < j < k && j < s.len() ==> #[trigger] rank(s[i], s[j]) != Order::Greater
    &&& forall|i: int, j: int|
        0 <= i < k <= j < s.len() ==> #[trigger] rank(s[i], s[j]) != Order::Greater
}

/// The first `last` entries are in rank order, and none of the others ranks
/// before any of them.
pub open spec fn front_is_best(entries: Seq<Ranked>, last: usize) -> bool {
    best_first(records_of(entries), last as int)
}

/// How two ranked entries compare, for the sort.
pub fn std_order_of(a: &Ranked, b: &Ranked) -> (r: Ordering)
    ensures
        r == std_order(rank(a.result@, b.result@)),
{
    match a.result.rank_against(&b.result) {
        Order::Less => Ordering::Less,
        Order::Equal => Ordering::Equal,
        Order::Greater => Ordering::Greater,
    }
}

/// Calls `PartialSort::partial_sort` of partial_sort on the entries, ordered
/// by rank. Not proved: that it only rearranges the entries, that it leaves
/// the first `last` of them in rank order, and that none of the others ranks
/// before any of those. The crate stops the program if `last` exceeds the
/// length, and promises this only for a consistent order.
#[verifier::external_body]
pub(crate) fn partial_sort_by_rank(entries: &mut Vec<Ranked>, last: usize)
    requires
        last <= old(entries)@.len(),
        ranks_consistently(records_of(old(entries)@)),
    ensures
        exists|places: Seq<int>|
            {
                &&& is_rearrangement(places, old(entries)@.len())
                &&& final(entries)@.len() == old(entries)@.len()
                &&& forall|i: int|
                    0 <= i < places.len() ==> final(entries)@[i] == old(entries)@[#[trigger] places[i]]
            },
        front_is_best(final(entries)@, last),
{
    entries.partial_sort(last, |a, b| std_order_of(a, b));
}

} // verus!
