//! What pruning is for: what is older than the retention window goes, and of each
//! device no more than the maximum stays, the newest first.
use vstd::prelude::*;
use vstd::set_lib::*;

use crate::history;
use crate::laws;
use crate::store;
use crate::store::{Receipt, StoreState};

verus! {

/// The receipts that a prune leaves of a history are fresh, every fresh one that it
/// drops is older than every one that it leaves, or came in before it at the same
/// time, and it leaves all fresh ones or, if there are more, the maximum.
pub proof fn the_newest_fresh_receipts_survive(stamps: Seq<i64>, cutoff: i64, max: nat)
    ensures
        ({
            let keep = history::survivors(stamps, cutoff, max);
            let kept = Set::new(|i: int| 0 <= i < keep.len() && keep[i]);
            let fresh = Set::new(|i: int| 0 <= i < stamps.len() && stamps[i] >= cutoff);
            &&& keep.len() == stamps.len()
            &&& forall|i: int| 0 <= i < keep.len() && #[trigger] keep[i] ==> stamps[i] >= cutoff
            &&& forall|i: int, j: int|
                0 <= i < keep.len() && 0 <= j < keep.len() && #[trigger] keep[i] && !#[trigger] keep[j]
                    && stamps[j] >= cutoff ==> (stamps[i] > stamps[j] || (stamps[i] == stamps[j] && i
                    > j))
            &&& fresh.finite()
            &&& kept.finite()
            &&& fresh.len() <= max ==> kept.len() == fresh.len()
            &&& fresh.len() > max ==> kept.len() == max
        }),
{
    let keep = history::survivors(stamps, cutoff, max);
    let kept = Set::new(|i: int| 0 <= i < keep.len() && keep[i]);
    let fresh = Set::new(|i: int| 0 <= i < stamps.len() && stamps[i] >= cutoff);
    assert(fresh =~= history::fresh_receipts(stamps, cutoff));
    assert forall|i: int, j: int|
        0 <= i < keep.len() && 0 <= j < keep.len() && #[trigger] keep[i] && !#[trigger] keep[j]
            && stamps[j] >= cutoff implies (stamps[i] > stamps[j] || (stamps[i] == stamps[j] && i
        > j)) by {
        history::prune_prefers_the_newer(stamps, i, j, cutoff, max);
    }
    history::prune_leaves_min_of_fresh_and_max(stamps, stamps, cutoff, max);
    history::picked_rows_are_as_many_as_the_marks(stamps, keep);
}

/// Picking rows leaves the marked ones, all of them and no others, in their order.
pub proof fn picking_keeps_the_marked_rows_in_order<T>(rows: Seq<T>, keep: Seq<bool>)
    requires
        rows.len() == keep.len(),
    ensures
        exists|p: Seq<int>|
            {
                &&& p.len() == history::picked(rows, keep).len()
                &&& forall|j: int|
                    0 <= j < p.len() ==> 0 <= #[trigger] p[j] < rows.len() && keep[p[j]]
                        && history::picked(rows, keep)[j] == rows[p[j]]
                &&& forall|a: int, b: int|
                    0 <= a < b < p.len() ==> #[trigger] p[a] < #[trigger] p[b]
                &&& forall|i: int| 0 <= i < keep.len() && #[trigger] keep[i] ==> p.contains(i)
            },
{
    history::lemma_positions(keep);
    let p = history::positions(keep);
    assert(p.len() == history::picked(rows, keep).len());
}

/// The retention window is counted back from now, and not beyond the epoch: on a
/// clock in the range of a time stamp a receipt is older than the cutoff exactly if
/// it lies further back than the window, or before the epoch.
pub proof fn the_window_is_counted_back_from_now(now_ms: u64, retention_ms: u128, stamp: i64)
    ensures
        store::cutoff_at(now_ms, retention_ms) == if now_ms >= retention_ms {
            (now_ms - retention_ms) as u64 as i64
        } else {
            0
        },
        now_ms <= i64::MAX ==> (stamp < store::cutoff_at(now_ms, retention_ms) <==> stamp < 0
            || now_ms - stamp > retention_ms),
{
}

/// A prune of the key packages at a time drops of each device what lies further
/// back than the window, and beyond the maximum the oldest; what it leaves keeps its
/// order. Accounts and logs stay as they were.
pub proof fn a_prune_drops_what_lies_beyond_the_window(
    state: StoreState,
    device_id: Seq<char>,
    now_ms: u64,
    retention_ms: u128,
    max: nat,
)
    requires
        now_ms <= i64::MAX,
    ensures
        ({
            let next = state.with_pruned_key_packages(
                store::cutoff_at(now_ms, retention_ms),
                max,
            );
            let before = state.history(device_id);
            let left = next.history(device_id);
            &&& next.accounts == state.accounts
            &&& next.logs == state.logs
            &&& left.len() <= max
            &&& forall|j: int|
                0 <= j < left.len() ==> {
                    &&& 0 <= (#[trigger] left[j]).received_at
                    &&& now_ms - left[j].received_at <= retention_ms
                }
            &&& exists|p: Seq<int>| #[trigger]
                is_selection(p, before, left) && forall|i: int|
                    0 <= i < before.len() && !#[trigger] p.contains(i) && before[i].received_at >= 0
                        && now_ms - before[i].received_at <= retention_ms ==> left.len() == max
                        && forall|k: int|
                        0 <= k < p.len() ==> (before[#[trigger] p[k]].received_at
                            > before[i].received_at || (before[p[k]].received_at
                            == before[i].received_at && p[k] > i))
        }),
{
    let cutoff = store::cutoff_at(now_ms, retention_ms);
    let before = state.history(device_id);
    let stamps = store::stamps(before);
    let keep = history::survivors(stamps, cutoff, max);
    let kept = Set::new(|i: int| 0 <= i < keep.len() && keep[i]);
    let fresh = Set::new(|i: int| 0 <= i < stamps.len() && stamps[i] >= cutoff);
    let p = history::positions(keep);
    laws::devices_are_pruned_independently(state, device_id, cutoff, max);
    the_newest_fresh_receipts_survive(stamps, cutoff, max);
    history::lemma_positions(keep);
    history::picked_rows_are_as_many_as_the_marks(before, keep);
    let left = state.with_pruned_key_packages(cutoff, max).history(device_id);
    assert forall|j: int| 0 <= j < left.len() implies 0 <= (#[trigger] left[j]).received_at
        && now_ms - left[j].received_at <= retention_ms by {
        assert(keep[p[j]]);
        assert(stamps[p[j]] == before[p[j]].received_at);
    }
    assert(is_selection(p, before, left));
    assert forall|i: int|
        0 <= i < before.len() && !#[trigger] p.contains(i) && before[i].received_at >= 0 && now_ms
            - before[i].received_at <= retention_ms implies left.len() == max && forall|k: int|
        0 <= k < p.len() ==> (before[#[trigger] p[k]].received_at > before[i].received_at || (
        before[p[k]].received_at == before[i].received_at && p[k] > i)) by {
        assert(!keep[i]);
        assert(stamps[i] == before[i].received_at);
        assert(fresh.contains(i));
        assert(!kept.contains(i));
        assert(kept.subset_of(fresh));
        if kept.len() == fresh.len() {
            lemma_subset_equality(kept, fresh);
        }
        assert forall|k: int| 0 <= k < p.len() implies (before[#[trigger] p[k]].received_at
            > before[i].received_at || (before[p[k]].received_at == before[i].received_at && p[k]
            > i)) by {
            assert(keep[p[k]]);
            assert(stamps[p[k]] == before[p[k]].received_at);
        }
    }
}

/// Whether `left` holds the receipts of `before` at the positions `p`, in their
/// order.
pub open spec fn is_selection(p: Seq<int>, before: Seq<Receipt>, left: Seq<Receipt>) -> bool {
    &&& p.len() == left.len()
    &&& forall|j: int|
        0 <= j < p.len() ==> 0 <= #[trigger] p[j] < before.len() && left[j] == before[p[j]]
    &&& forall|a: int, b: int| 0 <= a < b < p.len() ==> #[trigger] p[a] < #[trigger] p[b]
}

/// A prune of the accounts at a time drops exactly the bundles that were stored
/// further back than the window; key packages and logs stay as they were.
pub proof fn an_account_prune_drops_what_lies_beyond_the_window(
    state: StoreState,
    account_pub: Seq<char>,
    now_ms: u64,
    retention_ms: u128,
)
    requires
        now_ms <= i64::MAX,
    ensures
        ({
            let next = state.with_pruned_accounts(store::cutoff_at(now_ms, retention_ms));
            &&& next.accounts.contains_key(account_pub) <==> {
                &&& state.accounts.contains_key(account_pub)
                &&& state.accounts[account_pub].updated_at >= 0
                &&& now_ms - state.accounts[account_pub].updated_at <= retention_ms
            }
            &&& next.accounts.contains_key(account_pub) ==> next.accounts[account_pub]
                == state.accounts[account_pub]
            &&& next.key_packages == state.key_packages
            &&& next.logs == state.logs
        }),
{
}

} // verus!
