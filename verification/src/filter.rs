//! Filtering a pool of candidates by a query and ranking those that match.

use vstd::prelude::*;
use crate::candidate::{candidate_of, characters_of_text, Candidate, CandidateModel};
use crate::request::copy_of;
use crate::matching::match_of;
use crate::query::{bases_of, lemma_lcs_len_bounded, QueryResult, QueryResultModel, Word, WordModel};
use crate::rank::lemma_one_query_ranks_consistently;
use crate::sorting::{
    best_first, is_rearrangement, models_of, partial_sort_by_rank, records_of, Ranked,
};

verus! {

/// What each candidate of a pool holds.
pub open spec fn pool_of(candidates: Seq<Candidate>) -> Seq<CandidateModel> {
    Seq::new(candidates.len(), |i: int| candidates[i]@)
}

/// The positions, among the first `n` of the pool, of the candidates in which
/// the query occurs, in pool order.
pub open spec fn matching_upto(pool: Seq<CandidateModel>, query: WordModel, n: int) -> Seq<int>
    decreases n,
{
    if n <= 0 {
        Seq::empty()
    } else if match_of(pool[n - 1], query).is_subsequence {
        matching_upto(pool, query, n - 1).push(n - 1)
    } else {
        matching_upto(pool, query, n - 1)
    }
}

/// The positions of the candidates in which the query occurs, in pool order.
pub open spec fn matching(pool: Seq<CandidateModel>, query: WordModel) -> Seq<int> {
    matching_upto(pool, query, pool.len() as int)
}

/// The scoring records of the candidates at the given positions.
pub open spec fn scores_at(pool: Seq<CandidateModel>, query: WordModel, order: Seq<int>) -> Seq<
    QueryResultModel,
> {
    Seq::new(order.len(), |i: int| match_of(pool[order[i]], query))
}

/// `order` lists the positions of the matching candidates, each once, so that
/// the first `k` are in rank order and none of the others ranks before any of
/// those.
pub open spec fn is_ranking(
    order: Seq<int>,
    pool: Seq<CandidateModel>,
    query: WordModel,
    k: int,
) -> bool {
    let found = matching(pool, query);
    &&& exists|places: Seq<int>|
        {
            &&& is_rearrangement(places, found.len())
            &&& order.len() == found.len()
            &&& forall|i: int| 0 <= i < order.len() ==> order[i] == found[#[trigger] places[i]]
        }
    &&& best_first(scores_at(pool, query, order), k)
}

/// How many entries the sort brings to the front: the limit, or all of them
/// if there are fewer.
pub open spec fn front_len(max_candidates: usize, found: nat) -> int {
    if max_candidates <= found {
        max_candidates as int
    } else {
        found as int
    }
}

/// The pool positions of a sequence of ranked entries.
pub open spec fn positions_of(entries: Seq<Ranked>) -> Seq<int> {
    Seq::new(entries.len(), |i: int| entries[i].index as int)
}

/// The positions found by `matching_upto` lie in the pool, in increasing
/// order, and each holds a candidate in which the query occurs.
pub proof fn lemma_matching_upto(pool: Seq<CandidateModel>, query: WordModel, n: int)
    requires
        0 <= n <= pool.len(),
    ensures
        matching_upto(pool, query, n).len() <= n,
        forall|i: int|
            0 <= i < matching_upto(pool, query, n).len() ==> {
                let at = #[trigger] matching_upto(pool, query, n)[i];
                0 <= at < n && match_of(pool[at], query).is_subsequence
            },
        forall|at: int|
            0 <= at < n && match_of(pool[at], query).is_subsequence ==> matching_upto(
                pool,
                query,
                n,
            ).contains(at),
        forall|i: int, j: int|
            0 <= i < j < matching_upto(pool, query, n).len() ==> matching_upto(pool, query, n)[i]
                < matching_upto(pool, query, n)[j],
    decreases n,
{
    if n > 0 {
        lemma_matching_upto(pool, query, n - 1);
        let before = matching_upto(pool, query, n - 1);
        let now = matching_upto(pool, query, n);
        assert forall|at: int|
            0 <= at < n && match_of(pool[at], query).is_subsequence implies now.contains(at) by {
            if at < n - 1 {
                assert(before.contains(at));
                let i = choose|i: int| 0 <= i < before.len() && before[i] == at;
                assert(now[i] == at);
            } else {
                assert(now[now.len() - 1] == at);
            }
        }
    }
}

/// Scores every candidate of the pool against the query, keeps those in
/// which the query occurs, and brings the best `max_candidates` of them to
/// the front in rank order. Each entry names the position of its candidate.
pub fn rank_pool<'a, 'b>(
    candidates: &'a Vec<Candidate<'a>>,
    query: &'b Word<'b>,
    max_candidates: usize,
) -> (r: Vec<Ranked<'a, 'b>>)
    ensures
        is_ranking(
            positions_of(r@),
            pool_of(candidates@),
            query@,
            front_len(max_candidates, r@.len()),
        ),
        r@.len() == matching(pool_of(candidates@), query@).len(),
        forall|i: int|
            0 <= i < r@.len() ==> {
                &&& (#[trigger] r@[i]).index < candidates@.len()
                &&& r@[i].result@ == match_of(candidates@[r@[i].index as int]@, query@)
                &&& r@[i].result.candidate == Some(&candidates@[r@[i].index as int])
                &&& r@[i].result.query == Some(query)
                &&& r@[i].result.is_subsequence
            },
{
    let ghost pool = pool_of(candidates@);
    let mut entries: Vec<Ranked<'a, 'b>> = Vec::new();
    let mut i: usize = 0;
    while i < candidates.len()
        invariant
            i <= candidates.len(),
            pool == pool_of(candidates@),
            positions_of(entries@) == matching_upto(pool, query@, i as int),
            forall|j: int|
                0 <= j < entries@.len() ==> {
                    &&& (#[trigger] entries@[j]).index < candidates@.len()
                    &&& entries@[j].result@ == match_of(pool[entries@[j].index as int], query@)
                    &&& entries@[j].result.candidate == Some(&candidates@[entries@[j].index as int])
                    &&& entries@[j].result.query == Some(query)
                    &&& entries@[j].result.is_subsequence
                },
        decreases candidates.len() - i,
    {
        let result = candidates[i].matches_query(query);
        assert(candidates@[i as int]@ == pool[i as int]);
        if result.is_subsequence {
            let ghost before = positions_of(entries@);
            entries.push(Ranked { index: i, result });
            assert(positions_of(entries@) =~= before.push(i as int));
        }
        i += 1;
    }
    let ghost found = matching(pool, query@);
    let ghost unsorted = entries@;
    proof {
        assert forall|j: int| 0 <= j < records_of(unsorted).len() implies (#[trigger] records_of(
            unsorted,
        )[j]).query == query@ && records_of(unsorted)[j].num_wb_matches
            <= query@.characters.len() by {
            let c = pool[unsorted[j].index as int];
            lemma_lcs_len_bounded(bases_of(c.word_boundary_chars), bases_of(query@.characters));
        }
        lemma_one_query_ranks_consistently(records_of(unsorted), query@);
    }
    let last = if max_candidates <= entries.len() {
        max_candidates
    } else {
        entries.len()
    };
    partial_sort_by_rank(&mut entries, last);
    proof {
        let places = choose|places: Seq<int>|
            {
                &&& is_rearrangement(places, unsorted.len())
                &&& entries@.len() == unsorted.len()
                &&& forall|i: int|
                    0 <= i < places.len() ==> entries@[i] == unsorted[#[trigger] places[i]]
            };
        let order = positions_of(entries@);
        assert forall|i: int| 0 <= i < order.len() implies order[i] == found[#[trigger] places[i]] by {
            assert(entries@[i] == unsorted[places[i]]);
            assert(positions_of(unsorted)[places[i]] == unsorted[places[i]].index);
        }
        assert forall|i: int| 0 <= i < entries@.len() implies {
            &&& (#[trigger] entries@[i]).index < candidates@.len()
            &&& entries@[i].result@ == match_of(candidates@[entries@[i].index as int]@, query@)
            &&& entries@[i].result.candidate == Some(&candidates@[entries@[i].index as int])
            &&& entries@[i].result.query == Some(query)
            &&& entries@[i].result.is_subsequence
        } by {
            assert(entries@[i] == unsorted[places[i]]);
        }
        assert(scores_at(pool, query@, order) =~= records_of(entries@));
    }
    entries
}

/// Keeps the candidates in which the query occurs and brings the best
/// `max_candidates` of them to the front in rank order; the records after
/// those are in no particular order.
pub fn filter_and_sort_candidates<'a, 'b>(
    candidates: &'a Vec<Candidate<'a>>,
    query: &'b Word<'b>,
    max_candidates: usize,
) -> (r: Vec<QueryResult<'a, 'b>>)
    ensures
        exists|order: Seq<int>|
            {
                &&& is_ranking(
                    order,
                    pool_of(candidates@),
                    query@,
                    front_len(max_candidates, r@.len()),
                )
                &&& #[trigger] scores_at(pool_of(candidates@), query@, order) == models_of(r@)
                &&& forall|i: int|
                    0 <= i < r@.len() ==> (#[trigger] r@[i]).candidate == Some(
                        &candidates@[order[i]],
                    )
            },
{
    let entries = rank_pool(candidates, query, max_candidates);
    let mut results: Vec<QueryResult<'a, 'b>> = Vec::new();
    let mut i: usize = 0;
    while i < entries.len()
        invariant
            i <= entries.len(),
            results@.len() == i,
            forall|j: int| 0 <= j < i ==> results@[j] == entries@[j].result,
        decreases entries.len() - i,
    {
        results.push(entries[i].result);
        i += 1;
    }
    proof {
        let order = positions_of(entries@);
        assert(scores_at(pool_of(candidates@), query@, order) =~= models_of(results@));
    }
    results
}

/// A ranking names positions of the pool, and none of them twice.
pub proof fn lemma_ranking_distinct(
    order: Seq<int>,
    pool: Seq<CandidateModel>,
    query: WordModel,
    k: int,
)
    requires
        is_ranking(order, pool, query, k),
    ensures
        forall|i: int| 0 <= i < order.len() ==> 0 <= #[trigger] order[i] < pool.len(),
        forall|i: int, j: int|
            0 <= i < j < order.len() ==> #[trigger] order[i] != #[trigger] order[j],
{
    let found = matching(pool, query);
    lemma_matching_upto(pool, query, pool.len() as int);
    let places = choose|places: Seq<int>|
        {
            &&& is_rearrangement(places, found.len())
            &&& order.len() == found.len()
            &&& forall|i: int| 0 <= i < order.len() ==> order[i] == found[#[trigger] places[i]]
        };
    assert forall|i: int| 0 <= i < order.len() implies 0 <= #[trigger] order[i] < pool.len() by {
        assert(order[i] == found[places[i]]);
    }
    assert forall|i: int, j: int| 0 <= i < j < order.len() implies #[trigger] order[i]
        != #[trigger] order[j] by {
        assert(order[i] == found[places[i]]);
        assert(order[j] == found[places[j]]);
        assert(places[i] != places[j]);
        if places[i] < places[j] {
            assert(found[places[i]] < found[places[j]]);
        } else {
            assert(found[places[j]] < found[places[i]]);
        }
    }
}

/// The candidates that a list of keys gives.
pub open spec fn key_pool(keys: Seq<Seq<char>>) -> Seq<CandidateModel> {
    Seq::new(keys.len(), |i: int| candidate_of(keys[i]))
}

/// `text` is a text that the key extractor gives for the value.
pub open spec fn key_given<T, F: Fn(&T) -> &str>(key: F, item: T, text: Seq<char>) -> bool {
    exists|k: &str| #[trigger] call_ensures(key, (&item,), k) && k@ == text
}

/// `keys` are texts that the key extractor gives for the values, one for
/// each.
pub open spec fn keyed_by<T, F: Fn(&T) -> &str>(key: F, items: Seq<T>, keys: Seq<Seq<char>>) -> bool {
    &&& keys.len() == items.len()
    &&& forall|i: int| 0 <= i < items.len() ==> key_given(key, items[i], #[trigger] keys[i])
}

/// The query that a text gives.
pub open spec fn word_of(text: Seq<char>) -> WordModel {
    WordModel { characters: characters_of_text(text), text }
}

/// `out` holds the best `max_candidates` of the values of `pool` whose key
/// the query occurs in, in rank order. `keys` holds the key of each value
/// of the pool.
pub open spec fn is_top_ranked<T>(
    out: Seq<T>,
    pool: Seq<T>,
    keys: Seq<Seq<char>>,
    query: Seq<char>,
    max_candidates: usize,
) -> bool {
    exists|order: Seq<int>|
        {
            &&& #[trigger] is_ranking(
                order,
                key_pool(keys),
                word_of(query),
                front_len(max_candidates, order.len()),
            )
            &&& out.len() == front_len(max_candidates, order.len())
            &&& forall|i: int| 0 <= i < out.len() ==> out[i] == pool[order[i]]
        }
}

/// Wraps each value of a vector, in order.
pub fn into_slots<T>(items: Vec<T>) -> (r: Vec<Option<T>>)
    ensures
        r@.len() == items@.len(),
        forall|i: int| 0 <= i < r@.len() ==> r@[i] == Some(items@[i]),
{
    let mut items = items;
    let ghost all = items@;
    let mut reversed: Vec<Option<T>> = Vec::new();
    while items.len() > 0
        invariant
            items@.len() + reversed@.len() == all.len(),
            forall|i: int| 0 <= i < items@.len() ==> items@[i] == all[i],
            forall|i: int|
                0 <= i < reversed@.len() ==> reversed@[i] == Some(all[all.len() - 1 - i]),
        decreases items@.len(),
    {
        let last = items.pop();
        reversed.push(last);
    }
    let mut slots: Vec<Option<T>> = Vec::new();
    while reversed.len() > 0
        invariant
            slots@.len() + reversed@.len() == all.len(),
            forall|i: int|
                0 <= i < reversed@.len() ==> reversed@[i] == Some(all[all.len() - 1 - i]),
            forall|i: int| 0 <= i < slots@.len() ==> slots@[i] == Some(all[i]),
        decreases reversed@.len(),
    {
        match reversed.pop() {
            Some(slot) => {
                slots.push(slot);
            },
            None => {},
        }
    }
    slots
}

/// Keeps the values whose key the query occurs in, and hands out the best
/// `max_candidates` of them, in rank order. `key` gives the key of a value;
/// each value is ranked as the candidate that its key gives.
pub fn filter_and_sort_generic_candidates<T, F: Fn(&T) -> &str>(
    candidates: Vec<T>,
    query: &str,
    max_candidates: usize,
    key: F,
) -> (r: Vec<T>)
    requires
        forall|i: int| 0 <= i < candidates@.len() ==> call_requires(key, (&candidates@[i],)),
    ensures
        exists|keys: Seq<Seq<char>>|
            #[trigger] keyed_by(key, candidates@, keys) && is_top_ranked(
                r@,
                candidates@,
                keys,
                query@,
                max_candidates,
            ),
{
    let ghost all = candidates@;
    let mut keys: Vec<String> = Vec::new();
    let mut i: usize = 0;
    while i < candidates.len()
        invariant
            i <= candidates.len(),
            all == candidates@,
            keys@.len() == i,
            forall|j: int| 0 <= j < all.len() ==> call_requires(key, (&all[j],)),
            forall|j: int| 0 <= j < i ==> key_given(key, all[j], (#[trigger] keys@[j])@),
        decreases candidates.len() - i,
    {
        let k = key(&candidates[i]);
        keys.push(copy_of(k));
        assert(call_ensures(key, (&all[i as int],), k) && k@ == keys@[i as int]@);
        i += 1;
    }
    let ghost key_texts = Seq::new(keys@.len(), |j: int| keys@[j]@);
    let ghost pool_model = key_pool(key_texts);
    assert(keyed_by(key, all, key_texts));
    let mut order: Vec<usize> = Vec::new();
    let ghost ranking: Seq<int>;
    {
        let mut pool: Vec<Candidate> = Vec::new();
        let mut j: usize = 0;
        while j < keys.len()
            invariant
                j <= keys.len(),
                pool@.len() == j,
                forall|n: int| 0 <= n < j ==> (#[trigger] pool@[n])@ == candidate_of(keys@[n]@),
            decreases keys.len() - j,
        {
            pool.push(Candidate::new(keys[j].as_str()));
            j += 1;
        }
        assert(pool_of(pool@) =~= pool_model);
        let word = Word::new(query);
        let entries = rank_pool(&pool, &word, max_candidates);
        proof {
            ranking = positions_of(entries@);
        }
        let front = if max_candidates <= entries.len() {
            max_candidates
        } else {
            entries.len()
        };
        let mut n: usize = 0;
        while n < front
            invariant
                n <= front <= entries@.len(),
                order@.len() == n,
                ranking == positions_of(entries@),
                forall|m: int| 0 <= m < n ==> order@[m] == ranking[m],
            decreases front - n,
        {
            order.push(entries[n].index);
            n += 1;
        }
    }
    proof {
        lemma_ranking_distinct(
            ranking,
            pool_model,
            word_of(query@),
            front_len(max_candidates, ranking.len()),
        );
    }
    let mut slots = into_slots(candidates);
    let mut out: Vec<T> = Vec::new();
    let mut n: usize = 0;
    while n < order.len()
        invariant
            n <= order@.len() <= ranking.len(),
            out@.len() == n,
            slots@.len() == all.len(),
            pool_model.len() == all.len(),
            forall|m: int| 0 <= m < order@.len() ==> order@[m] == ranking[m],
            forall|m: int| 0 <= m < ranking.len() ==> 0 <= #[trigger] ranking[m] < pool_model.len(),
            forall|a: int, b: int|
                0 <= a < b < ranking.len() ==> #[trigger] ranking[a] != #[trigger] ranking[b],
            forall|m: int| 0 <= m < n ==> out@[m] == all[ranking[m]],
            forall|s: int|
                0 <= s < slots@.len() ==> #[trigger] slots@[s] == if exists|m: int|
                    0 <= m < n && ranking[m] == s {
                    None
                } else {
                    Some(all[s])
                },
        decreases order.len() - n,
    {
        let at = order[n];
        assert(at == ranking[n as int]);
        let ghost before = slots@;
        slots.push(None);
        let taken = slots.swap_remove(at);
        assert(taken == before[at as int]);
        assert(slots@ =~= before.update(at as int, None));
        match taken {
            Some(item) => {
                out.push(item);
            },
            None => {
                assert(exists|m: int| 0 <= m < n && ranking[m] == at);
                assert(false);
            },
        }
        assert forall|s: int| 0 <= s < slots@.len() implies #[trigger] slots@[s] == if exists|
            m: int,
        |
            0 <= m < n + 1 && ranking[m] == s {
            None
        } else {
            Some(all[s])
        } by {
            if s == at {
                assert(ranking[n as int] == s);
            } else if exists|m: int| 0 <= m < n && ranking[m] == s {
                let m = choose|m: int| 0 <= m < n && ranking[m] == s;
                assert(0 <= m < n + 1 && ranking[m] == s);
            } else {
                assert forall|m: int| 0 <= m < n + 1 implies ranking[m] != s by {}
            }
        }
        n += 1;
    }
    assert(is_ranking(
        ranking,
        key_pool(key_texts),
        word_of(query@),
        front_len(max_candidates, ranking.len()),
    ));
    assert(is_top_ranked(out@, all, key_texts, query@, max_candidates));
    out
}

} // verus!
