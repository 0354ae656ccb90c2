//! The store: accounts, key packages, account logs and retention.

use std::sync::{Arc, Mutex};

use chat_store::account_log::{AccountLogRecord, LogFreshness, Outcome};
use chat_store::clock::stamp_of;
use chat_store::history::{mark_survivors, pick};
use chat_store::store::{
    account_has_expired, payload_lamport, plan_open, retention_cutoff, retention_of_days,
    supersedes, Store, StoredAccountBundle, StoredKeyPackageBundle,
};

const BUNDLE_DOMAIN: &[u8] = b"libchat:account-device-bundle\0";
const DAY_MS: u64 = 86_400_000;

/// Minimal stand-in for a real bundle payload: the domain prefix plus the header
/// fields the server reads (`version:u8 | lamport:u64 LE`), no device keys
/// needed.
fn payload_with_lamport(lamport: u64) -> Vec<u8> {
    let mut p = BUNDLE_DOMAIN.to_vec();
    p.push(1u8); // version
    p.extend_from_slice(&lamport.to_le_bytes());
    p
}

fn bundle(lamport: u64) -> StoredAccountBundle {
    StoredAccountBundle {
        payload: payload_with_lamport(lamport),
        signature: vec![0u8; 64],
        updated_at: 0,
    }
}

fn upsert(store: &mut Store, account: &str, lamport: u64) -> bool {
    store.upsert_account(account, lamport, &bundle(lamport))
}

fn key_package(payload: &[u8]) -> StoredKeyPackageBundle {
    StoredKeyPackageBundle {
        payload: payload.to_vec(),
        signature: vec![7u8; 64],
    }
}

fn log(addr: &str, entries: &[&[u8]]) -> AccountLogRecord {
    let mut artifact = b"signed:".to_vec();
    for entry in entries {
        artifact.extend_from_slice(entry);
    }
    AccountLogRecord {
        addr: addr.to_owned(),
        artifact,
        entries: entries.iter().map(|entry| entry.to_vec()).collect(),
    }
}

#[test]
fn rejects_replayed_or_stale_lamport() {
    let mut store = Store::new();

    // First publish is always accepted.
    assert!(upsert(&mut store, "acct", 5));
    // A strictly higher lamport replaces it.
    assert!(upsert(&mut store, "acct", 6));
    // Re-publishing the same lamport (a replay) is rejected.
    assert!(!upsert(&mut store, "acct", 6));
    // An older lamport (a downgrade) is rejected.
    assert!(!upsert(&mut store, "acct", 4));

    // The stored bundle is still the newest one accepted.
    let stored = store.get_account("acct").unwrap();
    assert_eq!(payload_lamport(&stored.payload), Some(6));
}

#[test]
fn stale_publish_does_not_refresh_retention_clock() {
    let mut store = Store::new();
    assert!(upsert(&mut store, "acct", 9));
    let after_first = store.get_account("acct").unwrap().updated_at;

    // A rejected (stale) publish must not bump updated_at, so a replay can't
    // keep a stale bundle alive past the retention window.
    assert!(!upsert(&mut store, "acct", 9));
    let after_replay = store.get_account("acct").unwrap().updated_at;
    assert_eq!(after_first, after_replay);
}

#[test]
fn concurrent_account_publishes_succeed() {
    let runtime = tokio::runtime::Runtime::new().unwrap();
    runtime.block_on(async {
        let store = Arc::new(Mutex::new(Store::new()));
        let mut tasks = tokio::task::JoinSet::new();
        for index in 0..16 {
            let store = store.clone();
            tasks.spawn(async move {
                upsert(&mut store.lock().unwrap(), &format!("acct-{index}"), 1)
            });
        }
        while let Some(result) = tasks.join_next().await {
            assert!(result.unwrap());
        }
    });
}

#[test]
fn payload_lamport_requires_domain_and_full_header() {
    assert_eq!(payload_lamport(&payload_with_lamport(42)), Some(42));
    // Missing the domain prefix: unparseable.
    assert_eq!(payload_lamport(&[1u8, 0, 0, 0, 0, 0, 0, 0, 0]), None);
    // Has the domain but is too short for version + u64: unparseable.
    let mut short = BUNDLE_DOMAIN.to_vec();
    short.push(1u8);
    assert_eq!(payload_lamport(&short), None);
}

#[test]
fn payload_lamport_is_read_little_endian_and_ignores_what_follows() {
    let mut payload = payload_with_lamport(0x0102_0304_0506_0708);
    assert_eq!(&payload[31..39], &[8, 7, 6, 5, 4, 3, 2, 1]);
    payload.extend_from_slice(b"device keys");
    assert_eq!(payload_lamport(&payload), Some(0x0102_0304_0506_0708));
    assert_eq!(payload_lamport(&payload_with_lamport(u64::MAX)), Some(u64::MAX));
    // One byte short of the header.
    let header = payload_with_lamport(1);
    assert_eq!(payload_lamport(&header[..38]), None);
    // The version is not read.
    let mut other_version = payload_with_lamport(5);
    other_version[30] = 200;
    assert_eq!(payload_lamport(&other_version), Some(5));
}

#[test]
fn the_first_account_bundle_may_have_lamport_zero() {
    let mut store = Store::new();
    assert!(store.get_account("acct").is_none());
    assert!(store.upsert_account_at("acct", 0, &bundle(0), 1_000));
    assert!(!store.upsert_account_at("acct", 0, &bundle(0), 2_000));
    let stored = store.get_account("acct").unwrap();
    assert_eq!(stored.updated_at, 1_000);
    assert_eq!(stored.payload, payload_with_lamport(0));
    assert_eq!(stored.signature, vec![0u8; 64]);

    assert!(store.upsert_account_at("acct", 1, &bundle(1), 3_000));
    assert_eq!(store.get_account("acct").unwrap().updated_at, 3_000);
    // Another account is on its own.
    assert!(store.upsert_account_at("other", 0, &bundle(0), 4_000));
    assert_eq!(store.get_account("acct").unwrap().updated_at, 3_000);
}

#[test]
fn a_stored_payload_without_a_lamport_gives_way() {
    let mut store = Store::new();
    let odd = StoredAccountBundle {
        payload: b"no header".to_vec(),
        signature: vec![0u8; 64],
        updated_at: 0,
    };
    assert!(store.upsert_account_at("acct", 9, &odd, 1));
    assert!(store.upsert_account_at("acct", 0, &bundle(0), 2));

    assert!(supersedes(None, 0));
    assert!(supersedes(Some(&b"no header".to_vec()), 0));
    assert!(supersedes(Some(&payload_with_lamport(3)), 4));
    assert!(!supersedes(Some(&payload_with_lamport(3)), 3));
    assert!(!supersedes(Some(&payload_with_lamport(3)), 2));
}

#[test]
fn the_last_key_package_received_is_fetched() {
    let mut store = Store::new();
    assert!(store.latest("device").is_none());
    store.insert_at("device", &key_package(b"first"), 100);
    store.insert_at("device", &key_package(b"second"), 200);
    store.insert_at("other", &key_package(b"elsewhere"), 900);
    assert_eq!(store.latest("device").unwrap().payload, b"second");
    // Of two receipts at the same time the later one counts.
    store.insert_at("device", &key_package(b"third"), 200);
    assert_eq!(store.latest("device").unwrap().payload, b"third");
    // So does one that came in after the clock was set back.
    store.insert_at("device", &key_package(b"fourth"), 150);
    let stored = store.latest("device").unwrap();
    assert_eq!(stored.payload, b"fourth");
    assert_eq!(stored.signature, vec![7u8; 64]);
    assert_eq!(store.latest("other").unwrap().payload, b"elsewhere");
}

#[test]
fn inserting_now_is_fetched_at_once() {
    let mut store = Store::new();
    store.insert("device", &key_package(b"one"));
    assert_eq!(store.latest("device").unwrap().payload, b"one");
    // Received now, so well within a day.
    store.prune_key_packages(10, 86_400_000);
    assert_eq!(store.latest("device").unwrap().payload, b"one");
}

#[test]
fn prune_key_packages_keeps_the_newest_of_each_device() {
    let mut store = Store::new();
    for stamp in [10u64, 30, 20, 40] {
        store.insert_at("a", &key_package(&[stamp as u8]), stamp);
    }
    store.insert_at("b", &key_package(b"only"), 5);

    // Everything is fresh: two of four stay for `a`, the one stays for `b`.
    store.prune_key_packages_at(2, 1_000, 100);
    assert_eq!(store.latest("a").unwrap().payload, [40]);
    assert_eq!(store.latest("b").unwrap().payload, b"only");

    // The two that stayed are those received at 40 and 30.
    store.prune_key_packages_at(2, 65, 100);
    assert_eq!(store.latest("a").unwrap().payload, [40]);
    assert!(store.latest("b").is_none());
    store.prune_key_packages_at(2, 60, 100);
    assert_eq!(store.latest("a").unwrap().payload, [40]);
    // Strictly older than the cutoff is dropped.
    store.prune_key_packages_at(2, 59, 100);
    assert!(store.latest("a").is_none());
}

#[test]
fn prune_with_a_maximum_of_zero_drops_everything() {
    let mut store = Store::new();
    store.insert_at("a", &key_package(b"fresh"), 100);
    store.prune_key_packages_at(0, 1_000, 100);
    assert!(store.latest("a").is_none());
}

#[test]
fn prune_with_the_largest_maximum_drops_only_what_is_old() {
    assert_eq!(
        mark_survivors(&vec![10, 30, 20, 40, 15], 15, usize::MAX),
        vec![false, true, true, true, true]
    );
    let mut store = Store::new();
    store.insert_at("a", &key_package(b"fresh"), 100);
    store.insert_at("b", &key_package(b"old"), 99);
    store.prune_key_packages_at(usize::MAX, 0, 100);
    assert_eq!(store.latest("a").unwrap().payload, b"fresh");
    assert!(store.latest("b").is_none());
}

#[test]
fn survivors_are_the_newest_fresh_receipts() {
    assert_eq!(
        mark_survivors(&vec![10, 30, 20, 40], 15, 2),
        vec![false, true, false, true]
    );
    assert_eq!(
        mark_survivors(&vec![10, 30, 20, 40], 15, 9),
        vec![false, true, true, true]
    );
    // Of equal stamps the later one is newer.
    assert_eq!(mark_survivors(&vec![7, 7, 7], 0, 1), vec![false, false, true]);
    assert_eq!(mark_survivors(&vec![], 0, 1), Vec::<bool>::new());
    // Pruning again drops nothing more.
    assert_eq!(mark_survivors(&vec![30, 40], 15, 2), vec![true, true]);

    assert_eq!(
        pick(vec!['a', 'b', 'c', 'd'], &vec![true, false, false, true]),
        vec!['a', 'd']
    );
}

#[test]
fn prune_accounts_drops_what_has_not_been_renewed() {
    let mut store = Store::new();
    let now = 100 * DAY_MS;
    assert!(store.upsert_account_at("old", 1, &bundle(1), now - 31 * DAY_MS));
    assert!(store.upsert_account_at("edge", 1, &bundle(1), now - 30 * DAY_MS));
    assert!(store.upsert_account_at("fresh", 1, &bundle(1), now - DAY_MS));
    // A replay does not renew.
    assert!(!store.upsert_account_at("old", 1, &bundle(1), now));

    store.prune_accounts_at(retention_of_days(30), now);
    assert!(store.get_account("old").is_none());
    assert!(store.get_account("edge").is_some());
    assert!(store.get_account("fresh").is_some());
    // Again changes nothing.
    store.prune_accounts_at(retention_of_days(30), now);
    assert!(store.get_account("edge").is_some());
    assert!(store.get_account("fresh").is_some());
    // Once pruned, any lamport is a first one again.
    assert!(store.upsert_account_at("old", 0, &bundle(0), now));

    // On the real clock a bundle of the year 1970 is long expired.
    assert!(store.upsert_account("today", 1, &bundle(1)));
    store.prune_accounts(retention_of_days(30));
    assert!(store.get_account("fresh").is_none());
    assert!(store.get_account("today").is_some());
}

#[test]
fn retention_is_counted_in_milliseconds() {
    assert_eq!(retention_of_days(30), 2_592_000_000);
    assert_eq!(retention_of_days(0), 0);
    assert_eq!(retention_cutoff(10_000, 4_000), 6_000);
    assert_eq!(retention_cutoff(10_000, 10_000), 0);
    // A window longer than the clock reaches back to the beginning.
    assert_eq!(retention_cutoff(10_000, 10_001), 0);
    assert_eq!(retention_cutoff(10_000, u128::MAX), 0);
    assert!(account_has_expired(5_999, 6_000));
    assert!(!account_has_expired(6_000, 6_000));
}

#[test]
fn databases_are_opened_by_their_path() {
    let memory = plan_open(":memory:", Some(""));
    assert!(memory.in_memory);
    assert!(!memory.write_ahead_log);
    assert_eq!(memory.max_connections, 1);
    assert_eq!(memory.busy_timeout_secs, 5);
    assert!(memory.create_dir.is_none());

    let file = plan_open("data/chat.db", Some("data"));
    assert!(!file.in_memory);
    assert!(file.write_ahead_log);
    assert_eq!(file.max_connections, 5);
    assert_eq!(file.create_dir.as_deref(), Some("data"));

    assert!(plan_open("chat.db", Some("")).create_dir.is_none());
    assert!(plan_open("/", None).create_dir.is_none());
}

#[test]
fn other_spellings_of_the_memory_path_are_in_memory() {
    for path in [":memory:/", ":memory://", ":memory:/.", ":memory:/./", ":memory:/.//."] {
        let plan = plan_open(path, Some(":memory:"));
        assert!(plan.in_memory, "{path}");
        assert!(plan.create_dir.is_none());
        assert_eq!(std::path::Path::new(path), std::path::Path::new(":memory:"));
    }
    for path in [
        "./:memory:", ":memory:.", ":memory:/..", ":memory:/.x", ":memory:x", ":memory", "memory:",
        "", ":memory:/db", "/:memory:",
    ] {
        assert!(!plan_open(path, None).in_memory, "{path}");
        assert_ne!(std::path::Path::new(path), std::path::Path::new(":memory:"));
    }
}

#[test]
fn logs_only_grow_at_their_end() {
    let mut store = Store::new();
    assert_eq!(store.put_account_log(log("a", &[b"x"])), Outcome::Updated);
    assert_eq!(
        store.put_account_log(log("a", &[b"x"])),
        Outcome::Unchanged(LogFreshness::Identical)
    );
    assert_eq!(store.put_account_log(log("a", &[b"x", b"y"])), Outcome::Updated);
    assert_eq!(
        store.put_account_log(log("a", &[b"x"])),
        Outcome::Unchanged(LogFreshness::Behind)
    );
    assert_eq!(
        store.put_account_log(log("a", &[])),
        Outcome::Unchanged(LogFreshness::Behind)
    );
    assert_eq!(
        store.put_account_log(log("a", &[b"z", b"y", b"w"])),
        Outcome::Unchanged(LogFreshness::Diverged)
    );
    assert_eq!(store.get_account_log("a").unwrap(), b"signed:xy");
    assert!(store.get_account_log("b").is_none());
    // The entries decide, not the bytes that carried them.
    assert_eq!(
        store.put_account_log(log("a", &[b"xy"])),
        Outcome::Unchanged(LogFreshness::Diverged)
    );
}

#[test]
fn log_freshness_mirrors() {
    let short = log("a", &[b"x"]);
    let long = log("a", &[b"x", b"y"]);
    let fork = log("a", &[b"z"]);
    assert_eq!(long.freshness_against(&short), LogFreshness::Ahead);
    assert_eq!(short.freshness_against(&long), LogFreshness::Behind);
    assert_eq!(fork.freshness_against(&long), LogFreshness::Diverged);
    assert_eq!(long.freshness_against(&fork), LogFreshness::Diverged);
    assert_eq!(fork.freshness_against(&fork), LogFreshness::Identical);
}

#[test]
fn the_tables_do_not_touch_each_other() {
    let mut store = Store::new();
    store.insert_at("name", &key_package(b"kp"), 10);
    assert!(store.upsert_account_at("name", 3, &bundle(3), 10));
    assert_eq!(store.put_account_log(log("name", &[b"x"])), Outcome::Updated);

    store.prune_key_packages_at(0, 0, 10);
    assert!(store.latest("name").is_none());
    assert!(store.get_account("name").is_some());
    store.prune_accounts_at(0, 11);
    assert!(store.get_account("name").is_none());
    assert!(store.get_account_log("name").is_some());
}

#[test]
fn stamps_count_from_the_epoch() {
    assert_eq!(stamp_of(Some(1_700_000_000_123)), 1_700_000_000_123);
    assert_eq!(stamp_of(None), 0);
    assert_eq!(stamp_of(Some((1u128 << 64) + 5)), 5);
}

#[test]
fn the_clock_stamps_what_is_stored() {
    let mut store = Store::new();
    let before = std::time::SystemTime::now()
        .duration_since(std::time::UNIX_EPOCH)
        .unwrap()
        .as_millis() as i64;
    assert!(upsert(&mut store, "acct", 1));
    let stamp = store.get_account("acct").unwrap().updated_at;
    assert!(before <= stamp && stamp < before + 60_000);
}

#[test]
fn a_log_is_weighed_against_the_one_on_file() {
    let log_x = log("a", &[b"x"]);
    assert_eq!(log_x.outcome_against(None), Outcome::Updated);
    assert_eq!(log_x.outcome_against(Some(&log("a", &[]))), Outcome::Updated);
    assert_eq!(
        log_x.outcome_against(Some(&log("a", &[b"x"]))),
        Outcome::Unchanged(LogFreshness::Identical)
    );
}
