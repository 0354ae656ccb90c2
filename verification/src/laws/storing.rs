//! What storing is for: what each operation puts into the store, and what it
//! leaves as it was.
use vstd::prelude::*;

use crate::account_log;
use crate::account_log::{AccountLog, AccountLogRecord, LogFreshness, Outcome};
use crate::store;
use crate::store::{
    AccountBundle, KeyPackageRow, Receipt, SignedPayload, StoreState, StoredAccountBundle,
    StoredKeyPackageBundle,
};

verus! {

// ---- rows --------------------------------------------------------------------

/// The contents of a row are its bytes, all of them, and its time stamp.
pub proof fn a_row_is_its_bytes(
    key_package: StoredKeyPackageBundle,
    account: StoredAccountBundle,
    row: KeyPackageRow,
)
    ensures
        key_package@.payload == key_package.payload@,
        key_package@.signature == key_package.signature@,
        account@.content.payload == account.payload@,
        account@.content.signature == account.signature@,
        account@.updated_at == account.updated_at,
        row@.received_at == row.received_at,
        row@.content.payload == row.bundle.payload@,
        row@.content.signature == row.bundle.signature@,
{
}

/// The contents of a log are its published bytes and its entries, all of them, in
/// their order.
pub proof fn a_log_is_its_artifact_and_entries(record: AccountLogRecord)
    ensures
        record@.artifact == record.artifact@,
        record@.entries.len() == record.entries@.len(),
        forall|i: int|
            0 <= i < record.entries@.len() ==> #[trigger] record@.entries[i] == record.entries@[i]@,
{
}

// ---- key packages ------------------------------------------------------------

/// A store that holds nothing gives nothing out.
pub proof fn an_empty_store_gives_nothing_out(name: Seq<char>)
    ensures
        StoreState::empty().history(name).len() == 0,
        StoreState::empty().latest(name) is None,
        StoreState::empty().account(name) is None,
        !StoreState::empty().logs.contains_key(name),
{
}

/// A device's history is what is kept under its name, and the last of it is what
/// is fetched.
pub proof fn the_last_receipt_is_fetched(state: StoreState, device_id: Seq<char>)
    ensures
        state.key_packages.contains_key(device_id) ==> state.history(device_id)
            == state.key_packages[device_id],
        !state.key_packages.contains_key(device_id) ==> state.history(device_id).len() == 0,
        state.latest(device_id) is None <==> state.history(device_id).len() == 0,
        state.history(device_id).len() > 0 ==> state.latest(device_id) == Some(
            state.history(device_id)[state.history(device_id).len() - 1].content,
        ),
{
}

/// A received key package is put whole, with its time, at the end of its device's
/// history. Other devices, accounts and logs stay as they were.
pub proof fn a_key_package_is_put_at_the_end(
    state: StoreState,
    device_id: Seq<char>,
    content: SignedPayload,
    now_ms: u64,
    other: Seq<char>,
)
    ensures
        ({
            let before = state.history(device_id);
            let next = state.with_key_package(device_id, content, now_ms);
            let after = next.history(device_id);
            &&& after.len() == before.len() + 1
            &&& forall|i: int| 0 <= i < before.len() ==> #[trigger] after[i] == before[i]
            &&& after[before.len() as int] == (Receipt { received_at: now_ms as i64, content })
            &&& other != device_id ==> next.history(other) == state.history(other)
            &&& next.accounts == state.accounts
            &&& next.logs == state.logs
        }),
{
}

// ---- accounts ----------------------------------------------------------------

/// An account bundle is taken exactly if nothing is stored for the account, what is
/// stored has no lamport, or has a lower one.
pub proof fn only_a_higher_lamport_replaces_a_lamport(
    state: StoreState,
    account_pub: Seq<char>,
    lamport: u64,
)
    ensures
        state.accepts_account(account_pub, lamport) <==> (state.accounts.contains_key(account_pub)
            ==> match store::lamport_of(state.accounts[account_pub].content.payload) {
            Some(stored) => stored < lamport,
            None => true,
        }),
        store::is_newer_than_stored(None, lamport),
        forall|payload: Seq<u8>| #[trigger]
            store::is_newer_than_stored(Some(payload), lamport) <==> match store::lamport_of(
                payload,
            ) {
                Some(stored) => stored < lamport,
                None => true,
            },
        state.account(account_pub) == if state.accounts.contains_key(account_pub) {
            Some(state.accounts[account_pub])
        } else {
            None
        },
{
}

/// A bundle that is taken is stored whole, with the time, in the place of any other;
/// one that is not taken changes nothing. Other accounts, key packages and logs
/// stay as they were.
pub proof fn an_account_bundle_takes_the_one_place(
    state: StoreState,
    account_pub: Seq<char>,
    lamport: u64,
    content: SignedPayload,
    now_ms: u64,
    other: Seq<char>,
)
    ensures
        ({
            let next = state.offered_account(account_pub, lamport, content, now_ms);
            &&& state.accepts_account(account_pub, lamport) ==> next.account(account_pub) == Some(
                AccountBundle { content, updated_at: now_ms as i64 },
            )
            &&& !state.accepts_account(account_pub, lamport) ==> next == state
            &&& other != account_pub ==> next.account(other) == state.account(other)
            &&& next.key_packages == state.key_packages
            &&& next.logs == state.logs
        }),
{
}

// ---- logs --------------------------------------------------------------------

/// How a log relates to the stored one goes by their entries: it is ahead if it
/// holds the stored entries and one or more behind them, however many; identical
/// if it holds the same; behind if the stored log holds its entries and more
/// behind them; and a fork exactly if they differ at some place that both have.
pub proof fn logs_are_compared_entry_by_entry(stored: Seq<Seq<u8>>, candidate: Seq<Seq<u8>>)
    ensures
        ({
            let agree = forall|i: int|
                0 <= i < stored.len() && i < candidate.len() ==> #[trigger] stored[i]
                    == candidate[i];
            &&& account_log::freshness(stored, candidate) == LogFreshness::Ahead <==> agree
                && stored.len() < candidate.len()
            &&& account_log::freshness(stored, candidate) == LogFreshness::Identical <==> agree
                && stored.len() == candidate.len()
            &&& account_log::freshness(stored, candidate) == LogFreshness::Behind <==> agree
                && stored.len() > candidate.len()
            &&& account_log::freshness(stored, candidate) == LogFreshness::Diverged <==> !agree
        }),
{
    let agree = forall|i: int|
        0 <= i < stored.len() && i < candidate.len() ==> #[trigger] stored[i] == candidate[i];
    if stored.is_prefix_of(candidate) {
        assert forall|i: int| 0 <= i < stored.len() && i < candidate.len() implies #[trigger] stored[i]
            == candidate[i] by {
            assert(candidate.subrange(0, stored.len() as int)[i] == stored[i]);
        }
    }
    if candidate.is_prefix_of(stored) {
        assert forall|i: int| 0 <= i < stored.len() && i < candidate.len() implies #[trigger] stored[i]
            == candidate[i] by {
            assert(stored.subrange(0, candidate.len() as int)[i] == candidate[i]);
        }
    }
    if agree {
        if stored.len() <= candidate.len() {
            assert(candidate.subrange(0, stored.len() as int) =~= stored);
        }
        if candidate.len() <= stored.len() {
            assert(stored.subrange(0, candidate.len() as int) =~= candidate);
        }
        if candidate.len() == stored.len() {
            assert(candidate =~= stored);
        }
        if stored.len() > candidate.len() {
            assert(!stored.is_prefix_of(candidate));
        }
    }
}

/// A log replaces the stored one exactly if there is none or it strictly extends
/// it; what does not replace it is told by how it relates to it.
pub proof fn a_log_that_extends_the_stored_one_replaces_it(
    stored: Option<Seq<Seq<u8>>>,
    candidate: Seq<Seq<u8>>,
)
    ensures
        stored is None ==> account_log::outcome_of(stored, candidate) == Outcome::Updated,
        stored matches Some(entries) ==> {
            let agree = forall|i: int|
                0 <= i < entries.len() && i < candidate.len() ==> #[trigger] entries[i]
                    == candidate[i];
            account_log::outcome_of(stored, candidate) == if !agree {
                Outcome::Unchanged(LogFreshness::Diverged)
            } else if entries.len() < candidate.len() {
                Outcome::Updated
            } else if entries.len() == candidate.len() {
                Outcome::Unchanged(LogFreshness::Identical)
            } else {
                Outcome::Unchanged(LogFreshness::Behind)
            }
        },
{
    if let Some(entries) = stored {
        logs_are_compared_entry_by_entry(entries, candidate);
    }
}

/// Appending any number of entries to the stored log, one or more, makes a log that
/// is taken and is the stored one afterwards.
pub proof fn any_number_of_entries_may_be_appended(
    state: StoreState,
    addr: Seq<char>,
    artifact: Seq<u8>,
    more: Seq<Seq<u8>>,
)
    requires
        state.logs.contains_key(addr),
        more.len() > 0,
    ensures
        ({
            let log = AccountLog { artifact, entries: state.logs[addr].entries + more };
            &&& state.log_outcome(addr, log) == Outcome::Updated
            &&& state.offered_log(addr, log).logs.contains_key(addr)
            &&& state.offered_log(addr, log).logs[addr] == log
        }),
{
    let entries = state.logs[addr].entries;
    assert((entries + more).subrange(0, entries.len() as int) =~= entries);
}

/// What becomes of an offered log is told by the log that is stored for its
/// account. It is stored whole, or nothing changes; other accounts' logs, key
/// packages and account bundles stay as they were.
pub proof fn an_offered_log_is_stored_or_changes_nothing(
    state: StoreState,
    addr: Seq<char>,
    log: AccountLog,
    other: Seq<char>,
)
    ensures
        ({
            let outcome = state.log_outcome(addr, log);
            let next = state.offered_log(addr, log);
            &&& !state.logs.contains_key(addr) ==> outcome == Outcome::Updated
            &&& state.logs.contains_key(addr) ==> {
                let entries = state.logs[addr].entries;
                let agree = forall|i: int|
                    0 <= i < entries.len() && i < log.entries.len() ==> #[trigger] entries[i]
                        == log.entries[i];
                outcome == if !agree {
                    Outcome::Unchanged(LogFreshness::Diverged)
                } else if entries.len() < log.entries.len() {
                    Outcome::Updated
                } else if entries.len() == log.entries.len() {
                    Outcome::Unchanged(LogFreshness::Identical)
                } else {
                    Outcome::Unchanged(LogFreshness::Behind)
                }
            }
            &&& outcome == Outcome::Updated ==> next.logs.contains_key(addr) && next.logs[addr]
                == log
            &&& outcome != Outcome::Updated ==> next == state
            &&& other != addr ==> {
                &&& next.logs.contains_key(other) == state.logs.contains_key(other)
                &&& next.logs.contains_key(other) ==> next.logs[other] == state.logs[other]
            }
            &&& next.key_packages == state.key_packages
            &&& next.accounts == state.accounts
        }),
{
    if state.logs.contains_key(addr) {
        a_log_that_extends_the_stored_one_replaces_it(
            Some(state.logs[addr].entries),
            log.entries,
        );
    }
}

} // verus!
