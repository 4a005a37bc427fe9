//! Ranking of scored candidates: best score first, cut off after a limit.
//!
//! Candidates are identified by their position in the corpus. A score is an
//! unsigned key that orders as the score does; among equal keys the candidate
//! that comes first in the corpus ranks first, which makes every ranking unique.

use vstd::prelude::*;

verus! {

/// Candidate `a` ranks strictly before candidate `b`: it has the higher key, or
/// the same key and the earlier position.
pub open spec fn ranks_before(keys: Seq<u32>, a: int, b: int) -> bool {
    keys[a] > keys[b] || (keys[a] == keys[b] && a < b)
}

/// Length of a ranking of `count` candidates cut off after `limit`.
pub open spec fn ranking_len(count: nat, limit: nat) -> nat {
    if limit <= count {
        limit
    } else {
        count
    }
}

/// `order` lists the best `limit` of the first `count` candidates, best first:
/// it has the right length, names only those candidates, is strictly ordered,
/// and whatever it leaves out ranks after everything in it.
pub open spec fn is_ranking_of_first(
    keys: Seq<u32>,
    count: nat,
    limit: nat,
    order: Seq<usize>,
) -> bool {
    &&& count <= keys.len()
    &&& order.len() == ranking_len(count, limit)
    &&& forall|i: int| 0 <= i < order.len() ==> (#[trigger] order[i]) < count
    &&& forall|i: int, j: int|
        0 <= i < j < order.len() ==> ranks_before(
            keys,
            #[trigger] order[i] as int,
            #[trigger] order[j] as int,
        )
    &&& forall|k: usize, i: int|
        #![trigger order[i], order.contains(k)]
        k < count && 0 <= i < order.len() && !order.contains(k) ==> ranks_before(
            keys,
            order[i] as int,
            k as int,
        )
}

/// `order` is the ranking of all candidates, cut off after `limit`.
pub open spec fn is_ranking(keys: Seq<u32>, limit: nat, order: Seq<usize>) -> bool {
    is_ranking_of_first(keys, keys.len(), limit, order)
}

/// Ranking is transitive.
pub proof fn lemma_ranks_before_transitive(keys: Seq<u32>, a: int, b: int, c: int)
    requires
        ranks_before(keys, a, b),
        ranks_before(keys, b, c),
    ensures
        ranks_before(keys, a, c),
{
}

/// There is only one ranking: two sequences that both rank the same keys under
/// the same limit are equal.
pub proof fn lemma_ranking_unique(keys: Seq<u32>, limit: nat, x: Seq<usize>, y: Seq<usize>)
    requires
        is_ranking(keys, limit, x),
        is_ranking(keys, limit, y),
    ensures
        x == y,
{
    assert(x.len() == y.len());
    assert forall|i: int| 0 <= i < x.len() implies x[i] == y[i] by {
        lemma_ranking_agree(keys, limit, x, y, i);
    }
    assert(x =~= y);
}

/// Two rankings of the same keys agree at every position.
proof fn lemma_ranking_agree(keys: Seq<u32>, limit: nat, x: Seq<usize>, y: Seq<usize>, i: int)
    requires
        is_ranking(keys, limit, x),
        is_ranking(keys, limit, y),
        0 <= i < x.len(),
    ensures
        x[i] == y[i],
    decreases i,
{
    assert forall|j: int| 0 <= j < i implies x[j] == y[j] by {
        lemma_ranking_agree(keys, limit, x, y, j);
    }
    if x[i] != y[i] {
        lemma_earlier_in_other(keys, limit, x, y, i);
        lemma_earlier_in_other(keys, limit, y, x, i);
    }
}

/// Where two rankings agree before position `i` and differ at it, the entry of
/// the second ranks before the entry of the first.
proof fn lemma_earlier_in_other(
    keys: Seq<u32>,
    limit: nat,
    x: Seq<usize>,
    y: Seq<usize>,
    i: int,
)
    requires
        is_ranking(keys, limit, x),
        is_ranking(keys, limit, y),
        0 <= i < x.len(),
        forall|j: int| 0 <= j < i ==> x[j] == y[j],
        x[i] != y[i],
    ensures
        ranks_before(keys, y[i] as int, x[i] as int),
{
    let k = x[i];
    if y.contains(k) {
        let j = choose|j: int| 0 <= j < y.len() && y[j] == k;
        if j < i {
            assert(x[j] == y[j]);
            assert(ranks_before(keys, x[j] as int, x[i] as int));
        } else {
            assert(j > i);
            assert(ranks_before(keys, y[i] as int, y[j] as int));
        }
    } else {
        assert(ranks_before(keys, y[i] as int, k as int));
    }
}

/// Limit up to which the best candidates are selected one by one; beyond it
/// all candidates are sorted and the ranking is cut off.
pub const SELECTION_LIMIT: usize = 32;

/// Ranks the candidates by key, best first, and keeps the best `limit` of them.
///
/// Returns the positions of the chosen candidates. Equal keys keep the order of
/// their positions.
pub fn rank(keys: &Vec<u32>, limit: usize) -> (order: Vec<usize>)
    ensures
        is_ranking(keys@, limit as nat, order@),
{
    if limit <= SELECTION_LIMIT {
        select_best(keys, limit)
    } else {
        let n = keys.len();
        let mut order = sort_range(keys, 0, n);
        proof {
            lemma_sorted_prefix_is_ranking(keys@, limit as nat, order@);
        }
        if limit < n {
            order.truncate(limit);
        } else {
            assert(order@.take(n as int) =~= order@);
        }
        order
    }
}

/// `order` lists the candidates from `lo` up to `hi`, all of them, best first.
pub open spec fn is_sorted_range(keys: Seq<u32>, lo: nat, hi: nat, order: Seq<usize>) -> bool {
    &&& lo <= hi <= keys.len()
    &&& order.len() == hi - lo
    &&& forall|i: int| 0 <= i < order.len() ==> lo <= (#[trigger] order[i]) < hi
    &&& forall|i: int, j: int|
        0 <= i < j < order.len() ==> ranks_before(
            keys,
            #[trigger] order[i] as int,
            #[trigger] order[j] as int,
        )
    &&& forall|k: usize| lo <= k < hi ==> #[trigger] order.contains(k)
}

/// The first entries of the sorted candidates are their ranking.
pub proof fn lemma_sorted_prefix_is_ranking(keys: Seq<u32>, limit: nat, order: Seq<usize>)
    requires
        is_sorted_range(keys, 0, keys.len(), order),
    ensures
        is_ranking(keys, limit, order.take(ranking_len(keys.len(), limit) as int)),
{
    let m = ranking_len(keys.len(), limit) as int;
    let prefix = order.take(m);
    assert forall|k: usize, i: int|
        #![trigger prefix[i], prefix.contains(k)]
        k < keys.len() && 0 <= i < prefix.len() && !prefix.contains(k) implies ranks_before(
        keys,
        prefix[i] as int,
        k as int,
    ) by {
        assert(order.contains(k));
        let j = choose|j: int| 0 <= j < order.len() && order[j] == k;
        if j < m {
            assert(prefix[j] == k);
        }
        assert(ranks_before(keys, order[i] as int, order[j] as int));
    }
}

/// Sorts the candidates from `lo` up to `hi`, best first, by merging the
/// sorted halves.
fn sort_range(keys: &Vec<u32>, lo: usize, hi: usize) -> (order: Vec<usize>)
    requires
        lo <= hi <= keys.len(),
    ensures
        is_sorted_range(keys@, lo as nat, hi as nat, order@),
    decreases hi - lo,
{
    let mut order: Vec<usize> = Vec::new();
    if hi - lo == 0 {
        return order;
    }
    if hi - lo == 1 {
        order.push(lo);
        assert forall|k: usize| lo <= k < hi implies #[trigger] order@.contains(k) by {
            assert(order@[0] == k);
        }
        return order;
    }
    let mid = lo + (hi - lo) / 2;
    let first = sort_range(keys, lo, mid);
    let second = sort_range(keys, mid, hi);
    merge_sorted(keys, &first, &second, Ghost(lo as nat), Ghost(mid as nat), Ghost(hi as nat))
}

/// Merges two adjacent sorted ranges of candidates into one.
fn merge_sorted(
    keys: &Vec<u32>,
    first: &Vec<usize>,
    second: &Vec<usize>,
    Ghost(lo): Ghost<nat>,
    Ghost(mid): Ghost<nat>,
    Ghost(hi): Ghost<nat>,
) -> (order: Vec<usize>)
    requires
        is_sorted_range(keys@, lo, mid, first@),
        is_sorted_range(keys@, mid, hi, second@),
    ensures
        is_sorted_range(keys@, lo, hi, order@),
{
    let mut order: Vec<usize> = Vec::new();
    let mut i: usize = 0;
    let mut j: usize = 0;
    while i < first.len() || j < second.len()
        invariant
            is_sorted_range(keys@, lo, mid, first@),
            is_sorted_range(keys@, mid, hi, second@),
            i <= first.len(),
            j <= second.len(),
            order.len() == i + j,
            forall|t: int| 0 <= t < order.len() ==> lo <= (#[trigger] order[t]) < hi,
            forall|s: int, t: int|
                0 <= s < t < order.len() ==> ranks_before(
                    keys@,
                    #[trigger] order[s] as int,
                    #[trigger] order[t] as int,
                ),
            forall|t: int, x: int|
                0 <= t < order.len() && i <= x < first.len() ==> ranks_before(
                    keys@,
                    #[trigger] order[t] as int,
                    #[trigger] first[x] as int,
                ),
            forall|t: int, y: int|
                0 <= t < order.len() && j <= y < second.len() ==> ranks_before(
                    keys@,
                    #[trigger] order[t] as int,
                    #[trigger] second[y] as int,
                ),
            forall|x: int| 0 <= x < i ==> order@.contains(#[trigger] first[x]),
            forall|y: int| 0 <= y < j ==> order@.contains(#[trigger] second[y]),
        decreases first.len() - i + (second.len() - j),
    {
        let ghost before = order@;
        let take_first = if j >= second.len() {
            true
        } else if i >= first.len() {
            false
        } else {
            keys[first[i]] >= keys[second[j]]
        };
        if take_first {
            let next = first[i];
            proof {
                assert forall|y: int| j <= y < second.len() implies ranks_before(
                    keys@,
                    next as int,
                    #[trigger] second[y] as int,
                ) by {
                    if y > j {
                        assert(ranks_before(keys@, second[j as int] as int, second[y] as int));
                    }
                }
            }
            order.push(next);
            i = i + 1;
            proof {
                assert(order@[before.len() as int] == next);
            }
        } else {
            let next = second[j];
            proof {
                assert forall|x: int| i <= x < first.len() implies ranks_before(
                    keys@,
                    next as int,
                    #[trigger] first[x] as int,
                ) by {
                    if x > i {
                        assert(ranks_before(keys@, first[i as int] as int, first[x] as int));
                    }
                }
            }
            order.push(next);
            j = j + 1;
            proof {
                assert(order@[before.len() as int] == next);
            }
        }
        proof {
            assert forall|x: int| 0 <= x < i implies order@.contains(#[trigger] first[x]) by {
                if before.contains(first[x]) {
                    let t = choose|t: int| 0 <= t < before.len() && before[t] == first[x];
                    assert(order@[t] == first[x]);
                }
            }
            assert forall|y: int| 0 <= y < j implies order@.contains(#[trigger] second[y]) by {
                if before.contains(second[y]) {
                    let t = choose|t: int| 0 <= t < before.len() && before[t] == second[y];
                    assert(order@[t] == second[y]);
                }
            }
        }
    }
    proof {
        assert forall|k: usize| lo <= k < hi implies #[trigger] order@.contains(k) by {
            if k < mid {
                assert(first@.contains(k));
                let x = choose|x: int| 0 <= x < first.len() && first[x] == k;
                assert(order@.contains(first[x]));
            } else {
                assert(second@.contains(k));
                let y = choose|y: int| 0 <= y < second.len() && second[y] == k;
                assert(order@.contains(second[y]));
            }
        }
    }
    order
}

/// Selects the best `limit` candidates one by one: every candidate in turn is
/// put at its place among the best so far, and the last of them is dropped
/// when they are more than `limit`.
fn select_best(keys: &Vec<u32>, limit: usize) -> (order: Vec<usize>)
    ensures
        is_ranking(keys@, limit as nat, order@),
{
    let mut order: Vec<usize> = Vec::new();
    if limit == 0 {
        return order;
    }
    let n = keys.len();
    let mut i: usize = 0;
    while i < n
        invariant
            i <= n,
            n == keys.len(),
            limit > 0,
            is_ranking_of_first(keys@, i as nat, limit as nat, order@),
            order.len() < limit ==> forall|k: usize| k < i ==> order@.contains(k),
        decreases n - i,
    {
        let key = keys[i];
        let ghost before = order@;
        let len = order.len();
        let mut p: usize = len;
        while p > 0 && keys[order[p - 1]] < key
            invariant
                p <= len,
                len == order.len(),
                order@ == before,
                key == keys[i as int],
                i < n,
                n == keys.len(),
                is_ranking_of_first(keys@, i as nat, limit as nat, order@),
                forall|j: int| p <= j < len ==> keys[(#[trigger] order[j]) as int] < key,
            decreases p,
        {
            p = p - 1;
        }
        proof {
            assert forall|j: int| 0 <= j < p implies keys[(#[trigger] before[j]) as int] >= key by {
                if j < p - 1 {
                    assert(ranks_before(keys@, before[j] as int, before[p - 1] as int));
                }
            }
        }
        if len < limit {
            order.insert(p, i);
            proof {
                lemma_insert_keeps_ranking(keys@, i as nat, limit as nat, before, p as int);
                assert forall|k: usize| k < i + 1 implies order@.contains(k) by {
                    if k == i {
                        assert(order@[p as int] == k);
                    } else {
                        assert(before.contains(k));
                        let j = choose|j: int| 0 <= j < before.len() && before[j] == k;
                        if j < p {
                            assert(order@[j] == k);
                        } else {
                            assert(order@[j + 1] == k);
                        }
                    }
                }
            }
        } else if p < len {
            order.pop();
            order.insert(p, i);
            proof {
                lemma_replace_keeps_ranking(keys@, i as nat, limit as nat, before, p as int);
            }
        } else {
            proof {
                lemma_skip_keeps_ranking(keys@, i as nat, limit as nat, before);
            }
        }
        i = i + 1;
    }
    order
}

/// Inserting the next candidate at its place into a ranking that is not yet
/// full gives the ranking of one more candidate.
proof fn lemma_insert_keeps_ranking(
    keys: Seq<u32>,
    count: nat,
    limit: nat,
    before: Seq<usize>,
    p: int,
)
    requires
        count < keys.len(),
        count <= usize::MAX,
        is_ranking_of_first(keys, count, limit, before),
        before.len() < limit,
        forall|k: usize| k < count ==> before.contains(k),
        0 <= p <= before.len(),
        forall|j: int| 0 <= j < p ==> keys[(#[trigger] before[j]) as int] >= keys[count as int],
        forall|j: int|
            p <= j < before.len() ==> keys[(#[trigger] before[j]) as int] < keys[count as int],
    ensures
        is_ranking_of_first(keys, count + 1, limit, before.insert(p, count as usize)),
{
    let next = count as usize;
    let after = before.insert(p, next);
    assert forall|i: int| 0 <= i < after.len() implies (#[trigger] after[i]) < count + 1 by {
        if i < p {
            assert(after[i] == before[i]);
        } else if i > p {
            assert(after[i] == before[i - 1]);
        }
    }
    assert forall|i: int, j: int| 0 <= i < j < after.len() implies ranks_before(
        keys,
        #[trigger] after[i] as int,
        #[trigger] after[j] as int,
    ) by {
        lemma_inserted_pair(keys, count, before, p, i, j);
    }
    assert forall|k: usize, i: int|
        #![trigger after[i], after.contains(k)]
        k < count + 1 && 0 <= i < after.len() && !after.contains(k) implies ranks_before(
        keys,
        after[i] as int,
        k as int,
    ) by {
        if k == next {
            assert(after[p] == k);
        } else {
            assert(before.contains(k));
            let j = choose|j: int| 0 <= j < before.len() && before[j] == k;
            if j < p {
                assert(after[j] == k);
            } else {
                assert(after[j + 1] == k);
            }
        }
    }
}

/// After the next candidate is inserted at its place, any two entries of the
/// result are in ranking order.
proof fn lemma_inserted_pair(
    keys: Seq<u32>,
    count: nat,
    before: Seq<usize>,
    p: int,
    i: int,
    j: int,
)
    requires
        count < keys.len(),
        count <= usize::MAX,
        forall|a: int| 0 <= a < before.len() ==> (#[trigger] before[a]) < count,
        forall|a: int, b: int|
            0 <= a < b < before.len() ==> ranks_before(
                keys,
                #[trigger] before[a] as int,
                #[trigger] before[b] as int,
            ),
        0 <= p <= before.len(),
        forall|a: int| 0 <= a < p ==> keys[(#[trigger] before[a]) as int] >= keys[count as int],
        forall|a: int|
            p <= a < before.len() ==> keys[(#[trigger] before[a]) as int] < keys[count as int],
        0 <= i < j < before.len() + 1,
    ensures
        ranks_before(
            keys,
            before.insert(p, count as usize)[i] as int,
            before.insert(p, count as usize)[j] as int,
        ),
{
    let after = before.insert(p, count as usize);
    if j < p {
        assert(after[i] == before[i] && after[j] == before[j]);
    } else if j == p {
        assert(after[i] == before[i]);
        assert(before[i] < count);
    } else if i < p {
        assert(after[i] == before[i] && after[j] == before[j - 1]);
    } else if i == p {
        assert(after[j] == before[j - 1]);
    } else {
        assert(after[i] == before[i - 1] && after[j] == before[j - 1]);
    }
}

/// Dropping the last entry of a full ranking and inserting the next candidate
/// at its place gives the ranking of one more candidate.
proof fn lemma_replace_keeps_ranking(
    keys: Seq<u32>,
    count: nat,
    limit: nat,
    before: Seq<usize>,
    p: int,
)
    requires
        count < keys.len(),
        count <= usize::MAX,
        is_ranking_of_first(keys, count, limit, before),
        before.len() == limit,
        0 <= p < before.len(),
        forall|j: int| 0 <= j < p ==> keys[(#[trigger] before[j]) as int] >= keys[count as int],
        forall|j: int|
            p <= j < before.len() ==> keys[(#[trigger] before[j]) as int] < keys[count as int],
    ensures
        is_ranking_of_first(
            keys,
            count + 1,
            limit,
            before.drop_last().insert(p, count as usize),
        ),
{
    let next = count as usize;
    let kept = before.drop_last();
    let after = kept.insert(p, next);
    let dropped = before.last();
    assert forall|a: int| 0 <= a < kept.len() implies (#[trigger] kept[a]) == before[a] by {}
    assert forall|i: int| 0 <= i < after.len() implies (#[trigger] after[i]) < count + 1 by {
        if i < p {
            assert(after[i] == kept[i]);
        } else if i > p {
            assert(after[i] == kept[i - 1]);
        }
    }
    assert forall|i: int, j: int| 0 <= i < j < after.len() implies ranks_before(
        keys,
        #[trigger] after[i] as int,
        #[trigger] after[j] as int,
    ) by {
        lemma_inserted_pair(keys, count, kept, p, i, j);
    }
    assert(keys[dropped as int] < keys[count as int]) by {
        assert(dropped == before[before.len() - 1]);
    }
    assert forall|i: int| 0 <= i < after.len() implies ranks_before(
        keys,
        #[trigger] after[i] as int,
        dropped as int,
    ) by {
        if i < p {
            assert(after[i] == before[i]);
        } else if i > p {
            assert(after[i] == before[i - 1]);
        }
    }
    assert forall|k: usize, i: int|
        #![trigger after[i], after.contains(k)]
        k < count + 1 && 0 <= i < after.len() && !after.contains(k) implies ranks_before(
        keys,
        after[i] as int,
        k as int,
    ) by {
        if k == next {
            assert(after[p] == k);
        } else if k != dropped {
            if before.contains(k) {
                let j = choose|j: int| 0 <= j < before.len() && before[j] == k;
                assert(j < before.len() - 1);
                if j < p {
                    assert(after[j] == k);
                } else {
                    assert(after[j + 1] == k);
                }
            }
            assert(ranks_before(keys, before[before.len() - 1] as int, k as int));
            lemma_ranks_before_transitive(keys, after[i] as int, dropped as int, k as int);
        }
    }
}

/// A candidate that ranks after every entry of a full ranking leaves the
/// ranking as it is.
proof fn lemma_skip_keeps_ranking(keys: Seq<u32>, count: nat, limit: nat, before: Seq<usize>)
    requires
        count < keys.len(),
        count <= usize::MAX,
        is_ranking_of_first(keys, count, limit, before),
        before.len() == limit,
        forall|j: int|
            0 <= j < before.len() ==> keys[(#[trigger] before[j]) as int] >= keys[count as int],
    ensures
        is_ranking_of_first(keys, count + 1, limit, before),
{
    assert forall|k: usize, i: int|
        #![trigger before[i], before.contains(k)]
        k < count + 1 && 0 <= i < before.len() && !before.contains(k) implies ranks_before(
        keys,
        before[i] as int,
        k as int,
    ) by {
        if k == count {
            assert(before[i] < count);
        }
    }
}

} // verus!
