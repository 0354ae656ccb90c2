//! Rules for a history of receipts, given by its time stamps in the order in
//! which the receipts came in: which ones are newer than others, and which ones a
//! prune leaves.
use vstd::prelude::*;
use vstd::relations::injective_on;
use vstd::set_lib::*;

verus! {

/// Whether receipt `j` is newer than receipt `i`: stamped later, or stamped
/// alike and received after it.
pub open spec fn is_newer(stamps: Seq<i64>, j: int, i: int) -> bool {
    stamps[j] > stamps[i] || (stamps[j] == stamps[i] && j > i)
}

/// Whether receipt `i` is newer than all others.
pub open spec fn is_newest(stamps: Seq<i64>, i: int) -> bool {
    &&& 0 <= i < stamps.len()
    &&& forall|j: int| 0 <= j < stamps.len() && j != i ==> #[trigger] is_newer(stamps, i, j)
}

/// The receipts newer than receipt `i`.
pub open spec fn newer_receipts(stamps: Seq<i64>, i: int) -> Set<int> {
    Set::new(|j: int| 0 <= j < stamps.len() && is_newer(stamps, j, i))
}

/// How many receipts are newer than receipt `i`.
pub open spec fn rank(stamps: Seq<i64>, i: int) -> nat {
    newer_receipts(stamps, i).len()
}

/// Whether a prune leaves receipt `i`: it is not older than `cutoff` and is
/// among the `max` newest.
pub open spec fn survives(stamps: Seq<i64>, i: int, cutoff: i64, max: nat) -> bool {
    stamps[i] >= cutoff && rank(stamps, i) < max
}

/// For each receipt whether a prune leaves it.
pub open spec fn survivors(stamps: Seq<i64>, cutoff: i64, max: nat) -> Seq<bool> {
    Seq::new(stamps.len(), |i: int| survives(stamps, i, cutoff, max))
}

/// The positions that `keep` marks, in ascending order.
pub open spec fn positions(keep: Seq<bool>) -> Seq<int>
    decreases keep.len(),
{
    if keep.len() == 0 {
        Seq::empty()
    } else if keep.last() {
        positions(keep.drop_last()).push(keep.len() - 1)
    } else {
        positions(keep.drop_last())
    }
}

/// The rows that `keep` marks, in their old order.
pub open spec fn picked<T>(rows: Seq<T>, keep: Seq<bool>) -> Seq<T> {
    Seq::new(positions(keep).len(), |j: int| rows[positions(keep)[j]])
}

/// [`positions`] gives marked positions only, all of them, in ascending order.
pub proof fn lemma_positions(keep: Seq<bool>)
    ensures
        forall|j: int|
            0 <= j < positions(keep).len() ==> 0 <= #[trigger] positions(keep)[j] < keep.len()
                && keep[positions(keep)[j]],
        forall|a: int, b: int|
            0 <= a < b < positions(keep).len() ==> #[trigger] positions(keep)[a]
                < #[trigger] positions(keep)[b],
        forall|i: int|
            0 <= i < keep.len() && #[trigger] keep[i] ==> positions(keep).contains(i),
    decreases keep.len(),
{
    if keep.len() > 0 {
        let front = keep.drop_last();
        lemma_positions(front);
        let p = positions(keep);
        let q = positions(front);
        assert(forall|j: int| 0 <= j < q.len() ==> #[trigger] p[j] == q[j]);
        assert forall|a: int, b: int| 0 <= a < b < p.len() implies #[trigger] p[a]
            < #[trigger] p[b] by {
            assert(p[a] == q[a] && 0 <= q[a] < front.len());
            if b < q.len() {
                assert(p[b] == q[b]);
            }
        }
        assert forall|i: int| 0 <= i < keep.len() && #[trigger] keep[i] implies positions(
            keep,
        ).contains(i) by {
            if i < front.len() {
                assert(front[i]);
                let j = choose|j: int| 0 <= j < positions(front).len() && positions(front)[j] == i;
                assert(positions(keep)[j] == i);
            } else {
                assert(positions(keep)[positions(keep).len() - 1] == i);
            }
        }
    }
}

proof fn lemma_newer_is_finite(stamps: Seq<i64>, i: int)
    ensures
        newer_receipts(stamps, i).finite(),
        newer_receipts(stamps, i).len() <= stamps.len(),
{
    lemma_int_range(0, stamps.len() as int);
    assert(newer_receipts(stamps, i).subset_of(set_int_range(0, stamps.len() as int)));
    lemma_len_subset(newer_receipts(stamps, i), set_int_range(0, stamps.len() as int));
}

/// A newer receipt has a smaller rank.
proof fn lemma_newer_ranks_lower(stamps: Seq<i64>, j: int, i: int)
    requires
        0 <= j < stamps.len(),
        is_newer(stamps, j, i),
    ensures
        rank(stamps, j) < rank(stamps, i),
{
    lemma_newer_is_finite(stamps, i);
    newer_receipts(stamps, j).lemma_subset_not_in_lt(newer_receipts(stamps, i), j);
}

/// Whether fewer than `max` receipts are newer than receipt `i`.
fn ranks_below(stamps: &Vec<i64>, i: usize, max: usize) -> (below: bool)
    requires
        i < stamps@.len(),
    ensures
        below == (rank(stamps@, i as int) < max),
{
    let mut count: usize = 0;
    let mut k: usize = stamps.len();
    let ghost mut seen: Set<int> = Set::empty();
    while k > 0 && count < max
        invariant
            i < stamps@.len(),
            0 <= k <= stamps@.len(),
            count <= max,
            seen.finite(),
            seen.len() == count,
            forall|j: int|
                #[trigger] seen.contains(j) <==> k <= j < stamps@.len() && is_newer(
                    stamps@,
                    j,
                    i as int,
                ),
        decreases k,
    {
        k = k - 1;
        if stamps[k] > stamps[i] || (stamps[k] == stamps[i] && k > i) {
            count = count + 1;
            proof {
                seen = seen.insert(k as int);
            }
        }
    }
    proof {
        lemma_newer_is_finite(stamps@, i as int);
        if count < max {
            assert(seen =~= newer_receipts(stamps@, i as int));
        } else {
            lemma_len_subset(seen, newer_receipts(stamps@, i as int));
        }
    }
    count < max
}

/// Decides for each receipt of a history whether a prune leaves it.
pub fn mark_survivors(stamps: &Vec<i64>, cutoff: i64, max: usize) -> (keep: Vec<bool>)
    ensures
        keep@ == survivors(stamps@, cutoff, max as nat),
{
    let mut keep: Vec<bool> = Vec::new();
    let mut i: usize = 0;
    while i < stamps.len()
        invariant
            i <= stamps@.len(),
            keep@.len() == i,
            forall|j: int|
                0 <= j < i ==> #[trigger] keep@[j] == survives(stamps@, j, cutoff, max as nat),
        decreases stamps.len() - i,
    {
        let kept = stamps[i] >= cutoff && ranks_below(stamps, i, max);
        keep.push(kept);
        i = i + 1;
    }
    assert(keep@ =~= survivors(stamps@, cutoff, max as nat));
    keep
}

/// Keeps the rows that are marked, in their order.
pub fn pick<T>(rows: Vec<T>, keep: &Vec<bool>) -> (kept: Vec<T>)
    requires
        rows@.len() == keep@.len(),
    ensures
        kept@ == picked(rows@, keep@),
{
    let ghost all = rows@;
    let mut reversed: Vec<T> = Vec::new();
    let mut rest = rows;
    assert(keep@.take(rest@.len() as int) =~= keep@);
    while rest.len() > 0
        invariant
            rest@ =~= all.take(rest@.len() as int),
            rest@.len() <= all.len(),
            all.len() == keep@.len(),
            picked(all, keep@) =~= picked(all, keep@.take(rest@.len() as int))
                + reversed@.reverse(),
        decreases rest.len(),
    {
        let ghost n = rest@.len() as int;
        let last = rest.pop();
        let ghost here = keep@.take(n);
        proof {
            assert(here.drop_last() =~= keep@.take(n - 1));
        }
        if let Some(row) = last {
            if keep[rest.len()] {
                reversed.push(row);
            }
        }
    }
    let mut kept: Vec<T> = Vec::new();
    assert(keep@.take(0) =~= Seq::<bool>::empty());
    while reversed.len() > 0
        invariant
            kept@ + reversed@.reverse() =~= picked(all, keep@),
        decreases reversed.len(),
    {
        if let Some(row) = reversed.pop() {
            kept.push(row);
        }
    }
    kept
}

// ---- what the rules add up to ----------------------------------------------

/// The receipts that are not older than `cutoff`.
pub open spec fn fresh_receipts(stamps: Seq<i64>, cutoff: i64) -> Set<int> {
    Set::new(|i: int| 0 <= i < stamps.len() && stamps[i] >= cutoff)
}

/// The receipts that a prune leaves.
pub open spec fn surviving_receipts(stamps: Seq<i64>, cutoff: i64, max: nat) -> Set<int> {
    Set::new(|i: int| 0 <= i < stamps.len() && survives(stamps, i, cutoff, max))
}

/// A receipt stamped no earlier than all receipts before it is the newest.
pub proof fn last_receipt_is_newest(stamps: Seq<i64>, stamp: i64)
    requires
        forall|i: int| 0 <= i < stamps.len() ==> #[trigger] stamps[i] <= stamp,
    ensures
        is_newest(stamps.push(stamp), stamps.len() as int),
{
}

/// A prune prefers the newer receipt: where it leaves one receipt and drops
/// another that is fresh, the one it leaves is the newer.
pub proof fn prune_prefers_the_newer(stamps: Seq<i64>, i: int, j: int, cutoff: i64, max: nat)
    requires
        0 <= i < stamps.len(),
        0 <= j < stamps.len(),
        survives(stamps, i, cutoff, max),
        !survives(stamps, j, cutoff, max),
        stamps[j] >= cutoff,
    ensures
        is_newer(stamps, i, j),
{
    if i != j && !is_newer(stamps, i, j) {
        lemma_newer_ranks_lower(stamps, j, i);
    }
}

/// A prune with room for the whole history drops exactly the receipts older than
/// `cutoff`.
pub proof fn prune_with_room_drops_only_the_old(stamps: Seq<i64>, cutoff: i64, max: nat)
    requires
        stamps.len() <= max,
    ensures
        forall|i: int|
            0 <= i < stamps.len() ==> (#[trigger] survives(stamps, i, cutoff, max) <==> stamps[i]
                >= cutoff),
{
    let n = stamps.len() as int;
    lemma_int_range(0, n);
    assert forall|i: int| 0 <= i < n implies (#[trigger] survives(stamps, i, cutoff, max)
        <==> stamps[i] >= cutoff) by {
        newer_receipts(stamps, i).lemma_subset_not_in_lt(set_int_range(0, n), i);
    }
}

/// The number of rows that `keep` marks is the number of marks.
proof fn lemma_picked_len(keep: Seq<bool>)
    ensures
        Set::new(|i: int| 0 <= i < keep.len() && keep[i]).finite(),
        positions(keep).len() == Set::new(|i: int| 0 <= i < keep.len() && keep[i]).len(),
{
    let p = positions(keep);
    let marked = Set::new(|i: int| 0 <= i < keep.len() && keep[i]);
    lemma_positions(keep);
    lemma_int_range(0, p.len() as int);
    let index = set_int_range(0, p.len() as int);
    let f = |j: int| p[j];
    assert(injective_on(f, index)) by {
        assert forall|a: int, b: int|
            index.contains(a) && index.contains(b) && #[trigger] f(a) == #[trigger] f(b) implies a == b by {
            if a < b {
                assert(p[a] < p[b]);
            } else if b < a {
                assert(p[b] < p[a]);
            }
        }
    }
    assert(index.map(f) =~= marked) by {
        assert forall|i: int| marked.contains(i) implies #[trigger] index.map(f).contains(i) by {
            assert(keep[i]);
            assert(p.contains(i));
            let j = choose|j: int| 0 <= j < p.len() && p[j] == i;
            assert(index.contains(j) && i == f(j));
        }
    }
    lemma_map_size(index, marked, f);
}

/// As many rows are picked as are marked.
pub proof fn picked_rows_are_as_many_as_the_marks<T>(rows: Seq<T>, keep: Seq<bool>)
    ensures
        Set::new(|i: int| 0 <= i < keep.len() && keep[i]).finite(),
        picked(rows, keep).len() == Set::new(|i: int| 0 <= i < keep.len() && keep[i]).len(),
{
    lemma_picked_len(keep);
}

/// A prune leaves as many receipts as it may: all fresh ones, but no more than
/// `max`.
pub proof fn prune_leaves_min_of_fresh_and_max<T>(
    rows: Seq<T>,
    stamps: Seq<i64>,
    cutoff: i64,
    max: nat,
)
    requires
        rows.len() == stamps.len(),
    ensures
        fresh_receipts(stamps, cutoff).finite(),
        picked(rows, survivors(stamps, cutoff, max)).len() == if fresh_receipts(
            stamps,
            cutoff,
        ).len() <= max {
            fresh_receipts(stamps, cutoff).len()
        } else {
            max
        },
{
    let n = stamps.len() as int;
    let fresh = fresh_receipts(stamps, cutoff);
    let left = surviving_receipts(stamps, cutoff, max);
    let keep = survivors(stamps, cutoff, max);
    lemma_int_range(0, n);
    assert(fresh.subset_of(set_int_range(0, n)));
    lemma_len_subset(fresh, set_int_range(0, n));
    lemma_picked_len(keep);
    assert(left =~= Set::new(|i: int| 0 <= i < keep.len() && keep[i]));
    let f = |i: int| rank(stamps, i) as int;
    // Distinct receipts have distinct ranks.
    assert forall|a: int, b: int|
        0 <= a < n && 0 <= b < n && #[trigger] f(a) == #[trigger] f(b) implies a == b by {
        if a != b {
            if is_newer(stamps, a, b) {
                lemma_newer_ranks_lower(stamps, a, b);
            } else {
                lemma_newer_ranks_lower(stamps, b, a);
            }
        }
    }
    // The ranks of the fresh receipts are all the numbers below their count.
    let ranks = fresh.map(f);
    lemma_map_size(fresh, ranks, f);
    lemma_int_range(0, fresh.len() as int);
    assert(ranks.subset_of(set_int_range(0, fresh.len() as int))) by {
        assert forall|r: int| ranks.contains(r) implies set_int_range(
            0,
            fresh.len() as int,
        ).contains(r) by {
            let i = choose|i: int| fresh.contains(i) && r == f(i);
            newer_receipts(stamps, i).lemma_subset_not_in_lt(fresh, i);
        }
    }
    lemma_subset_equality(ranks, set_int_range(0, fresh.len() as int));
    // The survivors are the fresh receipts with a rank below `max`.
    let count = if fresh.len() <= max {
        fresh.len() as int
    } else {
        max as int
    };
    lemma_int_range(0, count);
    assert(left.map(f) =~= set_int_range(0, count)) by {
        assert forall|r: int| left.map(f).contains(r) implies set_int_range(0, count).contains(r) by {
            let i = choose|i: int| left.contains(i) && r == f(i);
            assert(fresh.contains(i));
            assert(ranks.contains(r));
        }
        assert forall|r: int| set_int_range(0, count).contains(r) implies left.map(f).contains(r) by {
            assert(ranks.contains(r));
            let i = choose|i: int| fresh.contains(i) && r == f(i);
            assert(left.contains(i));
        }
    }
    assert(left.subset_of(fresh));
    lemma_set_subset_finite(fresh, left);
    lemma_map_size(left, set_int_range(0, count), f);
}

/// A prune that leaves anything fresh at all leaves the newest receipt, and it
/// stays the newest.
pub proof fn prune_leaves_the_newest(stamps: Seq<i64>, i: int, cutoff: i64, max: nat) -> (k: int)
    requires
        is_newest(stamps, i),
        stamps[i] >= cutoff,
        max > 0,
    ensures
        0 <= k < positions(survivors(stamps, cutoff, max)).len(),
        positions(survivors(stamps, cutoff, max))[k] == i,
        is_newest(picked(stamps, survivors(stamps, cutoff, max)), k),
{
    let keep = survivors(stamps, cutoff, max);
    let p = positions(keep);
    lemma_positions(keep);
    assert(newer_receipts(stamps, i) =~= Set::empty()) by {
        assert forall|j: int| !newer_receipts(stamps, i).contains(j) by {
            if newer_receipts(stamps, i).contains(j) {
                assert(j == i || is_newer(stamps, i, j));
            }
        }
    }
    assert(keep[i]);
    assert(p.contains(i));
    let k = choose|k: int| 0 <= k < p.len() && p[k] == i;
    let left = picked(stamps, keep);
    assert forall|j: int| 0 <= j < left.len() && j != k implies #[trigger] is_newer(left, k, j) by {
        assert(p[j] != p[k]) by {
            if j < k {
                assert(p[j] < p[k]);
            } else {
                assert(p[k] < p[j]);
            }
        }
        assert(is_newer(stamps, i, p[j]));
    }
    k
}

/// Pruning a pruned history again changes nothing.
pub proof fn prune_is_idempotent<T>(rows: Seq<T>, stamps: Seq<i64>, cutoff: i64, max: nat)
    requires
        rows.len() == stamps.len(),
    ensures
        ({
            let keep = survivors(stamps, cutoff, max);
            let left = picked(stamps, keep);
            picked(picked(rows, keep), survivors(left, cutoff, max)) == picked(rows, keep)
        }),
{
    let keep = survivors(stamps, cutoff, max);
    let p = positions(keep);
    let left = picked(stamps, keep);
    lemma_positions(keep);
    assert forall|k: int| 0 <= k < left.len() implies survives(left, k, cutoff, max) by {
        let f = |j: int| p[j];
        let newer = newer_receipts(left, k);
        lemma_newer_is_finite(left, k);
        lemma_newer_is_finite(stamps, p[k]);
        assert(injective_on(f, newer)) by {
            assert forall|a: int, b: int|
                newer.contains(a) && newer.contains(b) && #[trigger] f(a) == #[trigger] f(b) implies a == b by {
                if a < b {
                    assert(p[a] < p[b]);
                } else if b < a {
                    assert(p[b] < p[a]);
                }
            }
        }
        lemma_map_size(newer, newer.map(f), f);
        assert(newer.map(f).subset_of(newer_receipts(stamps, p[k]))) by {
            assert forall|i: int| newer.map(f).contains(i) implies newer_receipts(
                stamps,
                p[k],
            ).contains(i) by {
                let j = choose|j: int| newer.contains(j) && i == f(j);
                if j > k {
                    assert(p[k] < p[j]);
                }
            }
        }
        lemma_len_subset(newer.map(f), newer_receipts(stamps, p[k]));
        assert(keep[p[k]]);
    }
    let again = survivors(left, cutoff, max);
    assert forall|k: int| 0 <= k < again.len() implies again[k] by {
    }
    lemma_all_marked(again);
    assert(picked(picked(rows, keep), again) =~= picked(rows, keep));
}

proof fn lemma_all_marked(keep: Seq<bool>)
    requires
        forall|k: int| 0 <= k < keep.len() ==> keep[k],
    ensures
        positions(keep) == Seq::new(keep.len(), |k: int| k),
    decreases keep.len(),
{
    if keep.len() > 0 {
        let front = keep.drop_last();
        assert forall|k: int| 0 <= k < front.len() implies front[k] by {
            assert(keep[k]);
        }
        lemma_all_marked(front);
        assert(keep[keep.len() - 1]);
    }
    assert(positions(keep) =~= Seq::new(keep.len(), |k: int| k));
}

} // verus!
