//! The store: key packages by device, device-list bundles by account and logs
//! by account, with the rules on what replaces what and what expires.
use vstd::bytes::u64_from_le_bytes;
use vstd::prelude::*;
use vstd::slice::slice_subrange;
use vstd::string::*;

use crate::account_log;
use crate::account_log::{AccountLog, AccountLogRecord, Outcome};
use crate::clock::now_ms;
use crate::clock;
use crate::history;
use crate::laws;
use crate::table::Table;

verus! {

// ---- stored values -----------------------------------------------------------

/// A key package as it was published.
#[derive(Debug, Clone)]
pub struct StoredKeyPackageBundle {
    /// The signed payload, kept verbatim so that consumers verify over the
    /// exact bytes that were signed.
    pub payload: Vec<u8>,
    /// The 64-byte Ed25519 signature over `payload`.
    pub signature: Vec<u8>,
}

/// A signed bundle that maps an account to the public keys of its devices.
/// The store holds one per account; its payload is opaque but for the lamport
/// in its header.
#[derive(Debug, Clone)]
pub struct StoredAccountBundle {
    /// The signed payload, kept verbatim.
    pub payload: Vec<u8>,
    /// The 64-byte Ed25519 signature over `payload` by the account key.
    pub signature: Vec<u8>,
    /// When the bundle was stored, in Unix milliseconds.
    pub updated_at: i64,
}

/// A key package with the time of its receipt.
#[derive(Debug)]
pub struct KeyPackageRow {
    pub received_at: i64,
    pub bundle: StoredKeyPackageBundle,
}

/// The contents of a published key package.
#[verifier::ext_equal]
pub struct SignedPayload {
    pub payload: Seq<u8>,
    pub signature: Seq<u8>,
}

/// A key package and the time of its receipt.
#[verifier::ext_equal]
pub struct Receipt {
    pub received_at: i64,
    pub content: SignedPayload,
}

/// An account bundle and the time it was stored.
#[verifier::ext_equal]
pub struct AccountBundle {
    pub content: SignedPayload,
    pub updated_at: i64,
}

impl View for StoredKeyPackageBundle {
    type V = SignedPayload;

    open spec fn view(&self) -> SignedPayload {
        SignedPayload { payload: self.payload@, signature: self.signature@ }
    }
}

impl View for StoredAccountBundle {
    type V = AccountBundle;

    open spec fn view(&self) -> AccountBundle {
        AccountBundle {
            content: SignedPayload { payload: self.payload@, signature: self.signature@ },
            updated_at: self.updated_at,
        }
    }
}

impl View for KeyPackageRow {
    type V = Receipt;

    open spec fn view(&self) -> Receipt {
        Receipt { received_at: self.received_at, content: self.bundle@ }
    }
}

/// A fresh vector with the same bytes.
pub(crate) fn copy_bytes(bytes: &[u8]) -> (copy: Vec<u8>)
    ensures
        copy@ == bytes@,
{
    let mut copy: Vec<u8> = Vec::new();
    let mut i: usize = 0;
    while i < bytes.len()
        invariant
            i <= bytes@.len(),
            copy@ =~= bytes@.take(i as int),
        decreases bytes.len() - i,
    {
        copy.push(bytes[i]);
        i = i + 1;
    }
    copy
}

// ---- the lamport header ------------------------------------------------------

/// The prefix of every account payload: `libchat:account-device-bundle` and a
/// zero byte.
pub open spec fn bundle_domain() -> Seq<u8> {
    seq![
        108u8, 105u8, 98u8, 99u8, 104u8, 97u8, 116u8, 58u8, 97u8, 99u8,
        99u8, 111u8, 117u8, 110u8, 116u8, 45u8, 100u8, 101u8, 118u8, 105u8,
        99u8, 101u8, 45u8, 98u8, 117u8, 110u8, 100u8, 108u8, 101u8, 0u8,
    ]
}

/// The lamport of an account payload, which starts
/// `domain | version: u8 | lamport: u64 LE`; `None` where the domain is missing
/// or the payload ends before the lamport does.
pub open spec fn lamport_of(payload: Seq<u8>) -> Option<u64> {
    let header = bundle_domain().len() + 9;
    if payload.len() >= header && bundle_domain().is_prefix_of(payload) {
        Some(vstd::bytes::spec_u64_from_le_bytes(payload.subrange(header - 8, header as int)))
    } else {
        None
    }
}

/// The bytes of [`bundle_domain`].
fn domain_bytes() -> (domain: [u8; 30])
    ensures
        domain@ == bundle_domain(),
{
    let domain: [u8; 30] = [
        108, 105, 98, 99, 104, 97, 116, 58, 97, 99,
        99, 111, 117, 110, 116, 45, 100, 101, 118, 105,
        99, 101, 45, 98, 117, 110, 100, 108, 101, 0,
    ];
    assert(domain@ =~= bundle_domain());
    domain
}

/// Reads the lamport out of an account payload without interpreting the rest.
pub fn payload_lamport(payload: &[u8]) -> (lamport: Option<u64>)
    ensures
        lamport == lamport_of(payload@),
{
    let domain = domain_bytes();
    assert(bundle_domain().len() == 30);
    if payload.len() < 39 {
        return None;
    }
    let mut i: usize = 0;
    while i < 30
        invariant
            i <= 30,
            payload@.len() >= 39,
            domain@ == bundle_domain(),
            bundle_domain().len() == 30,
            forall|j: int| 0 <= j < i ==> payload@[j] == bundle_domain()[j],
        decreases 30 - i,
    {
        if payload[i] != domain[i] {
            assert(payload@.subrange(0, 30)[i as int] != bundle_domain()[i as int]);
            return None;
        }
        i = i + 1;
    }
    assert(payload@.subrange(0, 30) =~= bundle_domain());
    Some(u64_from_le_bytes(slice_subrange(payload, 31, 39)))
}

// ---- what the store holds ----------------------------------------------------

/// What the store holds.
#[verifier::ext_equal]
pub struct StoreState {
    /// The receipts of each device that has any, in the order they came in.
    pub key_packages: Map<Seq<char>, Seq<Receipt>>,
    /// The bundle of each account that has one.
    pub accounts: Map<Seq<char>, AccountBundle>,
    /// The log of each account that has one.
    pub logs: Map<Seq<char>, AccountLog>,
}

/// The time stamps of a list of receipts.
pub open spec fn stamps(receipts: Seq<Receipt>) -> Seq<i64> {
    receipts.map_values(|receipt: Receipt| receipt.received_at)
}

/// The receipts that a prune leaves of a device's history.
pub open spec fn pruned(receipts: Seq<Receipt>, cutoff: i64, max: nat) -> Seq<Receipt> {
    history::picked(receipts, history::survivors(stamps(receipts), cutoff, max))
}

/// The oldest time stamp that is still retained at time `now_ms`.
pub open spec fn cutoff_at(now_ms: u64, retention_ms: u128) -> i64 {
    (if retention_ms <= now_ms {
        (now_ms - retention_ms) as u64
    } else {
        0
    }) as i64
}

/// Whether a bundle with this lamport may take the place of a stored payload:
/// its lamport is strictly higher, or the stored payload has none.
pub open spec fn is_newer_than_stored(stored: Option<Seq<u8>>, lamport: u64) -> bool {
    match stored {
        Some(payload) => lamport_of(payload) matches Some(known) ==> lamport > known,
        None => true,
    }
}

impl StoreState {
    /// A store that holds nothing.
    pub open spec fn empty() -> StoreState {
        StoreState {
            key_packages: Map::empty(),
            accounts: Map::empty(),
            logs: Map::empty(),
        }
    }

    /// All receipts of a device.
    pub open spec fn history(self, device_id: Seq<char>) -> Seq<Receipt> {
        if self.key_packages.contains_key(device_id) {
            self.key_packages[device_id]
        } else {
            Seq::empty()
        }
    }

    /// The device's most recently received key package.
    pub open spec fn latest(self, device_id: Seq<char>) -> Option<SignedPayload> {
        let receipts = self.history(device_id);
        if receipts.len() == 0 {
            None
        } else {
            Some(receipts.last().content)
        }
    }

    /// The store after receiving a key package.
    pub open spec fn with_key_package(
        self,
        device_id: Seq<char>,
        content: SignedPayload,
        now_ms: u64,
    ) -> StoreState {
        let receipt = Receipt { received_at: now_ms as i64, content };
        StoreState {
            key_packages: self.key_packages.insert(
                device_id,
                self.history(device_id).push(receipt),
            ),
            ..self
        }
    }

    /// The account's bundle.
    pub open spec fn account(self, account_pub: Seq<char>) -> Option<AccountBundle> {
        if self.accounts.contains_key(account_pub) {
            Some(self.accounts[account_pub])
        } else {
            None
        }
    }

    /// Whether the store takes an account bundle with this lamport.
    pub open spec fn accepts_account(self, account_pub: Seq<char>, lamport: u64) -> bool {
        is_newer_than_stored(
            match self.account(account_pub) {
                Some(bundle) => Some(bundle.content.payload),
                None => None,
            },
            lamport,
        )
    }

    /// The store after storing an account bundle.
    pub open spec fn with_account(
        self,
        account_pub: Seq<char>,
        content: SignedPayload,
        now_ms: u64,
    ) -> StoreState {
        let bundle = AccountBundle { content, updated_at: now_ms as i64 };
        StoreState { accounts: self.accounts.insert(account_pub, bundle), ..self }
    }

    /// The store after an account bundle was offered to it: stored if it is
    /// newer, else nothing changes.
    pub open spec fn offered_account(
        self,
        account_pub: Seq<char>,
        lamport: u64,
        content: SignedPayload,
        now_ms: u64,
    ) -> StoreState {
        if self.accepts_account(account_pub, lamport) {
            self.with_account(account_pub, content, now_ms)
        } else {
            self
        }
    }

    /// The store after dropping the account bundles stored before `cutoff`.
    pub open spec fn with_pruned_accounts(self, cutoff: i64) -> StoreState {
        StoreState {
            accounts: self.accounts.restrict(
                Set::new(
                    |account: Seq<char>|
                        self.accounts.contains_key(account) && self.accounts[account].updated_at
                            >= cutoff,
                ),
            ),
            ..self
        }
    }

    /// The store after pruning every device's history.
    pub open spec fn with_pruned_key_packages(self, cutoff: i64, max: nat) -> StoreState {
        StoreState {
            key_packages: Map::new(
                |device_id: Seq<char>|
                    self.key_packages.contains_key(device_id) && pruned(
                        self.key_packages[device_id],
                        cutoff,
                        max,
                    ).len() > 0,
                |device_id: Seq<char>| pruned(self.key_packages[device_id], cutoff, max),
            ),
            ..self
        }
    }

    /// What becomes of a log that is offered to the store.
    pub open spec fn log_outcome(self, addr: Seq<char>, log: AccountLog) -> Outcome {
        account_log::outcome_of(
            if self.logs.contains_key(addr) {
                Some(self.logs[addr].entries)
            } else {
                None
            },
            log.entries,
        )
    }

    /// The store after a log was offered to it: stored if there is none or it
    /// strictly extends the stored one, else nothing changes.
    pub open spec fn offered_log(self, addr: Seq<char>, log: AccountLog) -> StoreState {
        if self.log_outcome(addr, log) == Outcome::Updated {
            StoreState { logs: self.logs.insert(addr, log), ..self }
        } else {
            self
        }
    }
}

/// The store.
pub struct Store {
    key_packages: Table<Vec<KeyPackageRow>>,
    accounts: Table<StoredAccountBundle>,
    logs: Table<AccountLogRecord>,
}

spec fn receipts(rows: Seq<KeyPackageRow>) -> Seq<Receipt> {
    rows.map_values(|row: KeyPackageRow| row@)
}

spec fn histories(rows: Map<Seq<char>, Vec<KeyPackageRow>>) -> Map<Seq<char>, Seq<Receipt>> {
    Map::new(
        |device_id: Seq<char>| rows.contains_key(device_id) && rows[device_id]@.len() > 0,
        |device_id: Seq<char>| receipts(rows[device_id]@),
    )
}

impl View for Store {
    type V = StoreState;

    closed spec fn view(&self) -> StoreState {
        StoreState {
            key_packages: histories(self.key_packages@),
            accounts: self.accounts@.map_values(|bundle: StoredAccountBundle| bundle@),
            logs: self.logs@.map_values(|record: AccountLogRecord| record@),
        }
    }
}

/// The time stamps of a device's rows.
fn row_stamps(rows: &Vec<KeyPackageRow>) -> (result: Vec<i64>)
    ensures
        result@ == stamps(receipts(rows@)),
{
    let mut result: Vec<i64> = Vec::new();
    let mut i: usize = 0;
    while i < rows.len()
        invariant
            i <= rows@.len(),
            result@ =~= stamps(receipts(rows@)).take(i as int),
        decreases rows.len() - i,
    {
        result.push(rows[i].received_at);
        i = i + 1;
    }
    result
}

/// The oldest time stamp that is still retained at time `now_ms`: retention is
/// counted back from now, but not beyond the epoch.
pub fn retention_cutoff(now_ms: u64, retention_ms: u128) -> (cutoff: i64)
    ensures
        cutoff == cutoff_at(now_ms, retention_ms),
{
    if retention_ms <= now_ms as u128 {
        (now_ms - retention_ms as u64) as i64
    } else {
        0
    }
}

/// A retention window of so many days, in milliseconds.
pub fn retention_of_days(days: u64) -> (retention_ms: u128)
    ensures
        retention_ms == days * 86_400_000,
{
    days as u128 * 86_400_000
}

/// Whether a bundle with this lamport may take the place of the payload that is
/// stored for its account, if one is. A stored payload without a lamport gives
/// way to anything.
pub fn supersedes(stored: Option<&Vec<u8>>, lamport: u64) -> (newer: bool)
    ensures
        newer == is_newer_than_stored(
            match stored {
                Some(payload) => Some(payload@),
                None => None,
            },
            lamport,
        ),
{
    match stored {
        Some(payload) => match payload_lamport(payload.as_slice()) {
            Some(known) => lamport > known,
            None => true,
        },
        None => true,
    }
}

/// Whether an account bundle has not been refreshed since `cutoff`.
pub fn account_has_expired(updated_at: i64, cutoff: i64) -> (expired: bool)
    ensures
        expired == (updated_at < cutoff),
{
    updated_at < cutoff
}

/// How to open the database behind a store.
#[derive(Debug)]
pub struct OpenPlan {
    /// Whether the database lives in memory only.
    pub in_memory: bool,
    /// The directory to create first, if the file lies in one.
    pub create_dir: Option<String>,
    /// Whether to keep a write-ahead log.
    pub write_ahead_log: bool,
    /// How many connections to hold. An in-memory database lives as long as its
    /// one connection.
    pub max_connections: u32,
    /// How long to wait for a locked database, in seconds.
    pub busy_timeout_secs: u64,
}

/// Whether a path stands for a database in memory: `:memory:`, also with slashes
/// and `.` components behind it, which name the same path.
pub open spec fn names_memory(path: Seq<char>) -> bool {
    &&& path.len() >= 8
    &&& path.take(8) == ":memory:"@
    &&& forall|i: int|
        8 <= i < path.len() ==> (#[trigger] path[i] == '/' || (path[i] == '.' && path[i - 1] == '/'))
}

/// Tells whether a path stands for a database in memory.
fn is_memory(path: &str) -> (in_memory: bool)
    ensures
        in_memory == names_memory(path@),
{
    proof {
        reveal_strlit(":memory:");
    }
    let name = ":memory:";
    let len = path.unicode_len();
    if len < 8 {
        return false;
    }
    let mut i: usize = 0;
    while i < 8
        invariant
            i <= 8,
            len >= 8,
            len == path@.len(),
            name@ == ":memory:"@,
            name@.len() == 8,
            forall|j: int| 0 <= j < i ==> path@[j] == name@[j],
        decreases 8 - i,
    {
        if path.get_char(i) != name.get_char(i) {
            assert(path@.take(8)[i as int] != name@[i as int]);
            return false;
        }
        i = i + 1;
    }
    assert(path@.take(8) =~= name@);
    let mut before = path.get_char(7);
    while i < len
        invariant
            8 <= i <= len,
            len == path@.len(),
            before == path@[i - 1],
            forall|j: int|
                8 <= j < i ==> (#[trigger] path@[j] == '/' || (path@[j] == '.' && path@[j - 1]
                    == '/')),
        decreases len - i,
    {
        let c = path.get_char(i);
        if c != '/' && (c != '.' || before != '/') {
            return false;
        }
        before = c;
        i = i + 1;
    }
    true
}

/// Plans how to open the database at `path`, whose parent directory is `parent`
/// (empty for a bare file name). The path `:memory:` stands for a database in
/// memory.
pub fn plan_open(path: &str, parent: Option<&str>) -> (plan: OpenPlan)
    ensures
        plan.in_memory == names_memory(path@),
        plan.write_ahead_log == !plan.in_memory,
        plan.max_connections == if plan.in_memory {
            1u32
        } else {
            5u32
        },
        plan.busy_timeout_secs == 5,
        match plan.create_dir {
            Some(dir) => !plan.in_memory && dir@.len() > 0 && (parent matches Some(p) && p@
                == dir@),
            None => plan.in_memory || parent is None || parent->0@.len() == 0,
        },
{
    let in_memory = is_memory(path);
    let create_dir = match parent {
        Some(dir) => if in_memory || dir.is_empty() {
            None
        } else {
            Some(dir.to_owned())
        },
        None => None,
    };
    OpenPlan {
        in_memory,
        create_dir,
        write_ahead_log: !in_memory,
        max_connections: if in_memory {
            1
        } else {
            5
        },
        busy_timeout_secs: 5,
    }
}

impl Store {
    /// A store that holds nothing.
    pub fn new() -> (store: Store)
        ensures
            store@ == StoreState::empty(),
    {
        let store = Store { key_packages: Table::new(), accounts: Table::new(), logs: Table::new() };
        assert(store@ =~= StoreState::empty());
        store
    }

    /// Receives a key package for `device_id` at time `now_ms`.
    pub fn insert_at(&mut self, device_id: &str, bundle: &StoredKeyPackageBundle, now_ms: u64)
        ensures
            final(self)@ == old(self)@.with_key_package(device_id@, bundle@, now_ms),
    {
        let ghost before = self@;
        let mut rows = match self.key_packages.remove(device_id) {
            Some(rows) => rows,
            None => Vec::new(),
        };
        assert(receipts(rows@) =~= before.history(device_id@));
        let bundle = StoredKeyPackageBundle {
            payload: copy_bytes(bundle.payload.as_slice()),
            signature: copy_bytes(bundle.signature.as_slice()),
        };
        let row = KeyPackageRow { received_at: now_ms as i64, bundle };
        let ghost grown = rows@.push(row);
        rows.push(row);
        assert(receipts(grown) =~= before.history(device_id@).push(row@));
        self.key_packages.put(device_id, rows);
        assert(self@ =~= before.with_key_package(device_id@, bundle@, now_ms));
    }

    /// Receives a key package for `device_id` now.
    pub fn insert(&mut self, device_id: &str, bundle: &StoredKeyPackageBundle)
        ensures
            exists|now: u64| #[trigger]
                clock::is_clock_reading(now) && final(self)@ == old(self)@.with_key_package(
                    device_id@,
                    bundle@,
                    now,
                ),
    {
        let now = now_ms();
        self.insert_at(device_id, bundle, now);
    }

    /// The most recently received key package of `device_id`, whatever the clock
    /// said when it came in.
    pub fn latest(&self, device_id: &str) -> (bundle: Option<StoredKeyPackageBundle>)
        ensures
            match self@.latest(device_id@) {
                Some(content) => bundle matches Some(b) && b@ == content,
                None => bundle is None,
            },
    {
        match self.key_packages.get(device_id) {
            Some(rows) => {
                assert(receipts(rows@) =~= self@.history(device_id@));
                if rows.len() == 0 {
                    return None;
                }
                let row = &rows[rows.len() - 1];
                assert(receipts(rows@).last() == row@);
                Some(
                    StoredKeyPackageBundle {
                        payload: copy_bytes(row.bundle.payload.as_slice()),
                        signature: copy_bytes(row.bundle.signature.as_slice()),
                    },
                )
            },
            None => None,
        }
    }

    /// Offers an account bundle with the given lamport to the store at time
    /// `now_ms`. It is stored, in place of any older one, when its lamport is
    /// strictly higher than the stored one's; else nothing changes, so that a
    /// replay neither downgrades the device list nor refreshes its retention.
    /// Returns whether it was stored. The time stamp inside `bundle` is ignored.
    pub fn upsert_account_at(
        &mut self,
        account_pub: &str,
        lamport: u64,
        bundle: &StoredAccountBundle,
        now_ms: u64,
    ) -> (stored: bool)
        ensures
            stored == old(self)@.accepts_account(account_pub@, lamport),
            final(self)@ == old(self)@.offered_account(
                account_pub@,
                lamport,
                bundle@.content,
                now_ms,
            ),
    {
        let ghost before = self@;
        let newer = match self.accounts.get(account_pub) {
            Some(known) => supersedes(Some(&known.payload), lamport),
            None => supersedes(None, lamport),
        };
        if !newer {
            return false;
        }
        let row = StoredAccountBundle {
            payload: copy_bytes(bundle.payload.as_slice()),
            signature: copy_bytes(bundle.signature.as_slice()),
            updated_at: now_ms as i64,
        };
        self.accounts.put(account_pub, row);
        assert(self@ =~= before.with_account(account_pub@, bundle@.content, now_ms));
        true
    }

    /// Offers an account bundle with the given lamport to the store now.
    pub fn upsert_account(
        &mut self,
        account_pub: &str,
        lamport: u64,
        bundle: &StoredAccountBundle,
    ) -> (stored: bool)
        ensures
            stored == old(self)@.accepts_account(account_pub@, lamport),
            exists|now: u64| #[trigger]
                clock::is_clock_reading(now) && final(self)@ == old(self)@.offered_account(
                    account_pub@,
                    lamport,
                    bundle@.content,
                    now,
                ),
    {
        let now = now_ms();
        self.upsert_account_at(account_pub, lamport, bundle, now)
    }

    /// The stored bundle of an account.
    pub fn get_account(&self, account_pub: &str) -> (bundle: Option<StoredAccountBundle>)
        ensures
            match self@.account(account_pub@) {
                Some(known) => bundle matches Some(b) && b@ == known,
                None => bundle is None,
            },
    {
        match self.accounts.get(account_pub) {
            Some(known) => Some(
                StoredAccountBundle {
                    payload: copy_bytes(known.payload.as_slice()),
                    signature: copy_bytes(known.signature.as_slice()),
                    updated_at: known.updated_at,
                },
            ),
            None => None,
        }
    }

    /// Drops, at time `now_ms`, the account bundles that have not been refreshed
    /// within `retention_ms`.
    pub fn prune_accounts_at(&mut self, retention_ms: u128, now_ms: u64)
        ensures
            final(self)@ == old(self)@.with_pruned_accounts(cutoff_at(now_ms, retention_ms)),
            now_ms <= i64::MAX ==> forall|account_pub: Seq<char>| #[trigger]
                final(self)@.accounts.contains_key(account_pub) ==> now_ms
                    - final(self)@.accounts[account_pub].updated_at <= retention_ms,
    {
        let cutoff = retention_cutoff(now_ms, retention_ms);
        let ghost before = self@;
        let ghost all = self.accounts@;
        let mut rest: Table<StoredAccountBundle> = Table::new();
        std::mem::swap(&mut rest, &mut self.accounts);
        let mut kept: Table<StoredAccountBundle> = Table::new();
        loop
            invariant
                forall|account: Seq<char>| #[trigger]
                    rest@.contains_key(account) ==> all.contains_key(account) && rest@[account]
                        == all[account],
                forall|account: Seq<char>| #[trigger]
                    kept@.contains_key(account) <==> all.contains_key(account)
                        && !rest@.contains_key(account) && all[account].updated_at >= cutoff,
                forall|account: Seq<char>| #[trigger]
                    kept@.contains_key(account) ==> kept@[account] == all[account],
            ensures
                rest@ == Map::<Seq<char>, StoredAccountBundle>::empty(),
            decreases rest.size(),
        {
            let ghost waiting = rest@;
            match rest.pop() {
                Some((account, bundle)) => {
                    assert(waiting.contains_key(account@));
                    if !account_has_expired(bundle.updated_at, cutoff) {
                        kept.put(account.as_str(), bundle);
                    }
                },
                None => {
                    break;
                },
            }
        }
        self.accounts = kept;
        assert(self@ =~= before.with_pruned_accounts(cutoff));
    }

    /// Drops the account bundles that have not been refreshed within
    /// `retention_ms`.
    pub fn prune_accounts(&mut self, retention_ms: u128)
        ensures
            exists|now: u64| #[trigger]
                clock::is_clock_reading(now) && final(self)@ == old(self)@.with_pruned_accounts(
                    cutoff_at(now, retention_ms),
                ) && (now <= i64::MAX ==> forall|account_pub: Seq<char>| #[trigger]
                    final(self)@.accounts.contains_key(account_pub) ==> now
                        - final(self)@.accounts[account_pub].updated_at <= retention_ms),
    {
        let now = now_ms();
        self.prune_accounts_at(retention_ms, now);
    }

    /// Drops, at time `now_ms`, the key packages older than `retention_ms` and
    /// keeps of each device no more than the `max_per_identity` newest.
    pub fn prune_key_packages_at(
        &mut self,
        max_per_identity: usize,
        retention_ms: u128,
        now_ms: u64,
    )
        ensures
            final(self)@ == old(self)@.with_pruned_key_packages(
                cutoff_at(now_ms, retention_ms),
                max_per_identity as nat,
            ),
            now_ms <= i64::MAX ==> forall|device_id: Seq<char>, i: int|
                0 <= i < final(self)@.history(device_id).len() ==> now_ms - (
                #[trigger] final(self)@.history(device_id)[i]).received_at <= retention_ms,
            forall|device_id: Seq<char>|
                (#[trigger] final(self)@.history(device_id)).len() <= max_per_identity,
    {
        let cutoff = retention_cutoff(now_ms, retention_ms);
        let ghost before = self@;
        let ghost all = self.key_packages@;
        let mut rest: Table<Vec<KeyPackageRow>> = Table::new();
        std::mem::swap(&mut rest, &mut self.key_packages);
        let mut kept: Table<Vec<KeyPackageRow>> = Table::new();
        loop
            invariant
                forall|device_id: Seq<char>| #[trigger]
                    rest@.contains_key(device_id) ==> all.contains_key(device_id)
                        && rest@[device_id] == all[device_id],
                forall|device_id: Seq<char>| #[trigger]
                    kept@.contains_key(device_id) <==> all.contains_key(device_id)
                        && !rest@.contains_key(device_id),
                forall|device_id: Seq<char>| #[trigger]
                    kept@.contains_key(device_id) ==> receipts(kept@[device_id]@) == pruned(
                        receipts(all[device_id]@),
                        cutoff,
                        max_per_identity as nat,
                    ),
            ensures
                rest@ == Map::<Seq<char>, Vec<KeyPackageRow>>::empty(),
            decreases rest.size(),
        {
            let ghost waiting = rest@;
            match rest.pop() {
                Some((device_id, rows)) => {
                    assert(waiting.contains_key(device_id@));
                    let stamps = row_stamps(&rows);
                    let keep = history::mark_survivors(&stamps, cutoff, max_per_identity);
                    let ghost all_rows = rows@;
                    let left = history::pick(rows, &keep);
                    proof {
                        history::lemma_positions(keep@);
                        assert(receipts(left@) =~= pruned(
                            receipts(all_rows),
                            cutoff,
                            max_per_identity as nat,
                        ));
                    }
                    kept.put(device_id.as_str(), left);
                },
                None => {
                    break;
                },
            }
        }
        self.key_packages = kept;
        proof {
            let after = before.with_pruned_key_packages(cutoff, max_per_identity as nat);
            assert forall|device_id: Seq<char>| self@.key_packages.contains_key(device_id)
                <==> after.key_packages.contains_key(device_id) by {
                if all.contains_key(device_id) && all[device_id]@.len() == 0 {
                    assert(receipts(all[device_id]@).len() == 0);
                    assert(history::survivors(
                        stamps(receipts(all[device_id]@)),
                        cutoff,
                        max_per_identity as nat,
                    ).len() == 0);
                }
            }
            assert(self@ =~= after);
            assert forall|device_id: Seq<char>| (#[trigger] after.history(device_id)).len()
                <= max_per_identity && forall|i: int|
                0 <= i < after.history(device_id).len() ==> (#[trigger] after.history(
                    device_id,
                )[i]).received_at >= cutoff by {
                laws::prune_bounds_every_history(
                    before,
                    device_id,
                    cutoff,
                    max_per_identity as nat,
                );
            }
        }
    }

    /// Drops the key packages older than `retention_ms` and keeps of each
    /// device no more than the `max_per_identity` newest.
    pub fn prune_key_packages(&mut self, max_per_identity: usize, retention_ms: u128)
        ensures
            exists|now: u64| #[trigger]
                clock::is_clock_reading(now) && final(self)@ == old(self)@.with_pruned_key_packages(
                    cutoff_at(now, retention_ms),
                    max_per_identity as nat,
                ) && (now <= i64::MAX ==> forall|device_id: Seq<char>, i: int|
                    0 <= i < final(self)@.history(device_id).len() ==> now - (
                    #[trigger] final(self)@.history(device_id)[i]).received_at <= retention_ms),
            forall|device_id: Seq<char>|
                (#[trigger] final(self)@.history(device_id)).len() <= max_per_identity,
    {
        let now = now_ms();
        self.prune_key_packages_at(max_per_identity, retention_ms, now);
    }

    /// Offers an account log to the store. It is stored when the account has
    /// none yet or when it strictly extends the stored one; else nothing
    /// changes.
    pub fn put_account_log(&mut self, record: AccountLogRecord) -> (outcome: Outcome)
        ensures
            outcome == old(self)@.log_outcome(record.addr@, record@),
            final(self)@ == old(self)@.offered_log(record.addr@, record@),
    {
        let ghost before = self@;
        let outcome = record.outcome_against(self.logs.get(record.addr.as_str()));
        if let Outcome::Updated = outcome {
            let ghost log = record@;
            let addr = record.addr.clone();
            self.logs.put(addr.as_str(), record);
            assert(self@ =~= before.offered_log(addr@, log));
        }
        outcome
    }

    /// The stored log of an account, as it was published.
    pub fn get_account_log(&self, addr: &str) -> (artifact: Option<Vec<u8>>)
        ensures
            match artifact {
                Some(bytes) => self@.logs.contains_key(addr@) && bytes@
                    == self@.logs[addr@].artifact,
                None => !self@.logs.contains_key(addr@),
            },
    {
        match self.logs.get(addr) {
            Some(record) => Some(copy_bytes(record.artifact.as_slice())),
            None => None,
        }
    }
}

/// No history outgrows the machine: a store holds no more receipts of a device
/// than a `usize` counts.
pub proof fn history_fits_the_machine(store: &Store, device_id: Seq<char>)
    ensures
        store@.history(device_id).len() <= usize::MAX,
{
    let rows = store.key_packages@;
    if store@.key_packages.contains_key(device_id) {
        assert(rows[device_id].len() == receipts(rows[device_id]@).len());
    }
}

} // verus!
