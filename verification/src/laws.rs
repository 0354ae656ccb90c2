//! What holds of the store as a whole, over several operations and over every
//! state it can reach.
use vstd::prelude::*;

use crate::account_log;
use crate::account_log::{AccountLog, LogFreshness, Outcome};
use crate::bundle::BundleContent;
use crate::encoding;
use crate::handlers;
use crate::history;
use crate::store;
use crate::store::{AccountBundle, SignedPayload, Store, StoreState};
use crate::submit::{KeyField, SubmissionContent};

pub mod answering;
pub mod decoding;
pub mod pruning;
pub mod storing;

verus! {

// ---- runs of the store -------------------------------------------------------

/// Something that happens to a store.
pub enum Event {
    /// A key-package bundle is published.
    KeyPackage { bundle: BundleContent, now_ms: u64 },
    /// An account bundle is published.
    Account { bundle: BundleContent, now_ms: u64 },
    /// An account log that passed its checks is published.
    Log { addr: Seq<char>, log: AccountLog },
    /// The key packages are pruned.
    PruneKeyPackages { cutoff: i64, max: nat },
    /// The account bundles are pruned.
    PruneAccounts { cutoff: i64 },
}

/// The store after an event: what `apply_keypackage`, `apply_account`,
/// `apply_account_log`, `prune_key_packages` and `prune_accounts` make of it.
pub open spec fn after(state: StoreState, event: Event) -> StoreState {
    match event {
        Event::KeyPackage { bundle, now_ms } => match bundle.verified() {
            Ok(_) => state.with_key_package(bundle.name(), bundle.signed_payload(), now_ms),
            Err(_) => state,
        },
        Event::Account { bundle, now_ms } => match bundle.account_lamport() {
            Ok(lamport) => state.offered_account(
                bundle.name(),
                lamport,
                bundle.signed_payload(),
                now_ms,
            ),
            Err(_) => state,
        },
        Event::Log { addr, log } => state.offered_log(addr, log),
        Event::PruneKeyPackages { cutoff, max } => state.with_pruned_key_packages(cutoff, max),
        Event::PruneAccounts { cutoff } => state.with_pruned_accounts(cutoff),
    }
}

/// The store after a run of events.
pub open spec fn after_all(state: StoreState, events: Seq<Event>) -> StoreState
    decreases events.len(),
{
    if events.len() == 0 {
        state
    } else {
        after(after_all(state, events.drop_last()), events.last())
    }
}

// ---- proof of possession -----------------------------------------------------

/// Whether what is filed under `name` was signed by the holder of the key that
/// `name` spells.
pub open spec fn is_proven(name: Seq<char>, content: SignedPayload) -> bool {
    exists|key: Seq<u8>|
        {
            &&& name == #[trigger] encoding::hex_text(key)
            &&& (BundleContent {
                key,
                payload: content.payload,
                signature: content.signature,
            }).is_authentic()
        }
}

/// Whether every key package and every account bundle in the store was signed by
/// the holder of the key it is filed under, and every account bundle carries a
/// lamport.
pub open spec fn is_sound(state: StoreState) -> bool {
    &&& forall|device_id: Seq<char>, i: int|
        state.key_packages.contains_key(device_id) && 0 <= i < state.key_packages[device_id].len()
            ==> is_proven(device_id, (#[trigger] state.key_packages[device_id][i]).content)
    &&& forall|account_pub: Seq<char>| #[trigger]
        state.accounts.contains_key(account_pub) ==> is_proven(
            account_pub,
            state.accounts[account_pub].content,
        ) && store::lamport_of(state.accounts[account_pub].content.payload) is Some
}

/// The empty store is sound.
pub proof fn empty_store_is_sound()
    ensures
        is_sound(StoreState::empty()),
{
}

/// No event makes a sound store unsound: only the holder of a key can publish
/// under it.
pub proof fn events_keep_the_store_sound(state: StoreState, event: Event)
    requires
        is_sound(state),
    ensures
        is_sound(after(state, event)),
{
    let next = after(state, event);
    match event {
        Event::KeyPackage { bundle, now_ms } => {
            if bundle.verified() is Ok {
                let name = bundle.name();
                assert(is_proven(name, bundle.signed_payload())) by {
                    assert(name == encoding::hex_text(bundle.key));
                    assert((BundleContent {
                        key: bundle.key,
                        payload: bundle.signed_payload().payload,
                        signature: bundle.signed_payload().signature,
                    }) =~= bundle);
                }
                assert forall|device_id: Seq<char>, i: int|
                    next.key_packages.contains_key(device_id) && 0 <= i
                        < next.key_packages[device_id].len() implies is_proven(
                    device_id,
                    (#[trigger] next.key_packages[device_id][i]).content,
                ) by {
                    if device_id == name && i < state.history(name).len() {
                        assert(next.key_packages[device_id][i] == state.key_packages[name][i]);
                    } else if device_id != name {
                        assert(next.key_packages[device_id][i]
                            == state.key_packages[device_id][i]);
                    }
                }
            }
        },
        Event::Account { bundle, now_ms } => {
            if bundle.account_lamport() is Ok {
                assert(is_proven(bundle.name(), bundle.signed_payload())) by {
                    assert(bundle.name() == encoding::hex_text(bundle.key));
                    assert((BundleContent {
                        key: bundle.key,
                        payload: bundle.signed_payload().payload,
                        signature: bundle.signed_payload().signature,
                    }) =~= bundle);
                }
            }
        },
        Event::Log { addr, log } => {},
        Event::PruneKeyPackages { cutoff, max } => {
            assert forall|device_id: Seq<char>, i: int|
                next.key_packages.contains_key(device_id) && 0 <= i
                    < next.key_packages[device_id].len() implies is_proven(
                device_id,
                (#[trigger] next.key_packages[device_id][i]).content,
            ) by {
                let receipts = state.key_packages[device_id];
                let keep = history::survivors(store::stamps(receipts), cutoff, max);
                history::lemma_positions(keep);
                let j = history::positions(keep)[i];
                assert(next.key_packages[device_id][i] == state.key_packages[device_id][j]);
            }
        },
        Event::PruneAccounts { cutoff } => {},
    }
}

/// Whatever happens to a store that started out empty, it is sound.
pub proof fn reachable_stores_are_sound(events: Seq<Event>)
    ensures
        is_sound(after_all(StoreState::empty(), events)),
    decreases events.len(),
{
    if events.len() > 0 {
        reachable_stores_are_sound(events.drop_last());
        events_keep_the_store_sound(
            after_all(StoreState::empty(), events.drop_last()),
            events.last(),
        );
    }
}

/// Whatever a sound store hands out was signed by the holder of the key it is
/// asked for under.
pub proof fn fetched_bundles_are_proven(state: StoreState, name: Seq<char>)
    requires
        is_sound(state),
    ensures
        state.latest(name) matches Some(content) ==> is_proven(name, content),
        state.account(name) matches Some(bundle) ==> is_proven(name, bundle.content),
{
    if state.history(name).len() > 0 {
        let last = state.history(name).len() - 1;
        assert(is_proven(name, state.key_packages[name][last].content));
    }
}

// ---- publishing and fetching -------------------------------------------------

/// A key package is the one fetched next after it was published.
pub proof fn published_key_package_is_fetched(
    state: StoreState,
    device_id: Seq<char>,
    content: SignedPayload,
    now_ms: u64,
)
    ensures
        state.with_key_package(device_id, content, now_ms).latest(device_id) == Some(content),
{
}

/// A key package stays the one fetched until the device publishes the next or the
/// key packages are pruned.
pub proof fn key_package_is_fetched_until_the_next(
    state: StoreState,
    events: Seq<Event>,
    device_id: Seq<char>,
)
    requires
        forall|i: int|
            0 <= i < events.len() ==> !(#[trigger] events[i] is PruneKeyPackages) && (
            events[i] matches Event::KeyPackage { bundle, .. } ==> bundle.name() != device_id),
    ensures
        after_all(state, events).history(device_id) == state.history(device_id),
        after_all(state, events).latest(device_id) == state.latest(device_id),
    decreases events.len(),
{
    if events.len() > 0 {
        let front = events.drop_last();
        assert forall|i: int| 0 <= i < front.len() implies !(#[trigger] front[i] is PruneKeyPackages)
            && (front[i] matches Event::KeyPackage { bundle, .. } ==> bundle.name() != device_id) by {
            assert(front[i] == events[i]);
        }
        key_package_is_fetched_until_the_next(state, front, device_id);
        let last = events[events.len() - 1];
        assert(!(last is PruneKeyPackages));
    }
}

/// Nothing is fetched for a device that never published, whatever else happened.
pub proof fn unpublished_device_has_no_key_package(events: Seq<Event>, device_id: Seq<char>)
    requires
        forall|i: int|
            0 <= i < events.len() ==> (#[trigger] events[i] matches Event::KeyPackage {
                bundle,
                ..
            } ==> bundle.name() != device_id),
    ensures
        after_all(StoreState::empty(), events).latest(device_id) is None,
    decreases events.len(),
{
    if events.len() > 0 {
        let front = events.drop_last();
        assert forall|i: int| 0 <= i < front.len() implies (#[trigger] front[i] matches Event::KeyPackage {
            bundle,
            ..
        } ==> bundle.name() != device_id) by {
            assert(front[i] == events[i]);
        }
        unpublished_device_has_no_key_package(front, device_id);
        let last = events[events.len() - 1];
        assert(last == events.last());
    }
}

/// An account bundle that was taken is the one fetched next, stamped with the
/// time it was taken.
pub proof fn published_account_is_fetched(
    state: StoreState,
    account_pub: Seq<char>,
    lamport: u64,
    content: SignedPayload,
    now_ms: u64,
)
    requires
        state.accepts_account(account_pub, lamport),
    ensures
        state.offered_account(account_pub, lamport, content, now_ms).account(account_pub) == Some(
            AccountBundle { content, updated_at: now_ms as i64 },
        ),
{
}

/// An account without a stored bundle can publish any lamport.
pub proof fn first_account_bundle_is_accepted(
    state: StoreState,
    account_pub: Seq<char>,
    lamport: u64,
)
    requires
        state.account(account_pub) is None,
    ensures
        state.accepts_account(account_pub, lamport),
{
}

/// The texts in which a stored bundle is served are the texts in which it was
/// published: payload and signature come back letter for letter.
pub proof fn served_texts_are_the_published_texts(
    key_hex: Seq<char>,
    payload_b64: Seq<char>,
    signature_b64: Seq<char>,
)
    ensures
        handlers::decoded_bundle(key_hex, payload_b64, signature_b64) matches Ok(bundle) ==> {
            &&& encoding::base64_text(bundle.signed_payload().payload) == payload_b64
            &&& encoding::base64_text(bundle.signed_payload().signature) == signature_b64
        },
        forall|field: KeyField|
            #[trigger] SubmissionContent::from_encoded(
                key_hex,
                payload_b64,
                signature_b64,
                field,
            ) matches Ok(submission) ==> {
                &&& encoding::base64_text(submission.signed_payload().payload) == payload_b64
                &&& encoding::base64_text(submission.signed_payload().signature) == signature_b64
            },
{
}

/// Whichever spelling of its key a bundle was published under, and whichever
/// spelling is asked for, the name looked up is the name it was filed under.
pub proof fn any_spelling_finds_the_bundle(
    key_hex: Seq<char>,
    payload_b64: Seq<char>,
    signature_b64: Seq<char>,
)
    ensures
        handlers::decoded_bundle(key_hex, payload_b64, signature_b64) matches Ok(bundle) ==> {
            &&& handlers::filed_under(key_hex) == bundle.name()
            &&& handlers::filed_under(bundle.name()) == bundle.name()
            &&& forall|other: Seq<char>|
                encoding::hex_value(other) == Some(bundle.key) ==> #[trigger] handlers::filed_under(
                    other,
                ) == bundle.name()
        },
        forall|field: KeyField|
            #[trigger] SubmissionContent::from_encoded(
                key_hex,
                payload_b64,
                signature_b64,
                field,
            ) matches Ok(submission) ==> {
                &&& handlers::filed_under(key_hex) == submission.name()
                &&& handlers::filed_under(submission.name()) == submission.name()
                &&& forall|other: Seq<char>|
                    encoding::hex_value(other) == Some(submission.key)
                        ==> #[trigger] handlers::filed_under(other) == submission.name()
            },
{
    if let Some(key) = encoding::hex_value(key_hex) {
        encoding::hex_round_trip(key);
    }
}

/// What is published in text is served in text: an authentic key package comes
/// back letter for letter to whoever asks for its device next, by the id that it
/// was published under.
pub proof fn published_texts_are_served(
    state: StoreState,
    key_hex: Seq<char>,
    payload_b64: Seq<char>,
    signature_b64: Seq<char>,
    now_ms: u64,
)
    requires
        handlers::decoded_bundle(key_hex, payload_b64, signature_b64) matches Ok(bundle)
            && bundle.verified() is Ok,
    ensures
        ({
            let bundle = handlers::decoded_bundle(key_hex, payload_b64, signature_b64)->Ok_0;
            let next = after(state, Event::KeyPackage { bundle, now_ms });
            &&& next.latest(handlers::filed_under(key_hex)) matches Some(served)
            &&& encoding::base64_text(served.payload) == payload_b64
            &&& encoding::base64_text(served.signature) == signature_b64
        }),
{
    let bundle = handlers::decoded_bundle(key_hex, payload_b64, signature_b64)->Ok_0;
    served_texts_are_the_published_texts(key_hex, payload_b64, signature_b64);
    any_spelling_finds_the_bundle(key_hex, payload_b64, signature_b64);
    published_key_package_is_fetched(state, bundle.name(), bundle.signed_payload(), now_ms);
}

/// An account bundle that is published in text and taken comes back letter for
/// letter to whoever asks for its account next, by the key that it was published
/// under.
pub proof fn published_account_texts_are_served(
    state: StoreState,
    key_hex: Seq<char>,
    payload_b64: Seq<char>,
    signature_b64: Seq<char>,
    now_ms: u64,
)
    requires
        SubmissionContent::from_encoded(
            key_hex,
            payload_b64,
            signature_b64,
            KeyField::AccountPub,
        ) matches Ok(submission) && submission.account_lamport() matches Ok(lamport)
            && state.accepts_account(submission.name(), lamport),
    ensures
        ({
            let submission = SubmissionContent::from_encoded(
                key_hex,
                payload_b64,
                signature_b64,
                KeyField::AccountPub,
            )->Ok_0;
            let next = after(state, Event::Account { bundle: submission.bundle(), now_ms });
            &&& next.account(handlers::filed_under(key_hex)) matches Some(served)
            &&& encoding::base64_text(served.content.payload) == payload_b64
            &&& encoding::base64_text(served.content.signature) == signature_b64
            &&& served.updated_at == now_ms as i64
        }),
{
    served_texts_are_the_published_texts(key_hex, payload_b64, signature_b64);
    any_spelling_finds_the_bundle(key_hex, payload_b64, signature_b64);
}

/// A key spelled in lowercase hex is the name that its bundles are filed under.
pub proof fn lowercase_key_is_its_own_name(
    key_hex: Seq<char>,
    payload_b64: Seq<char>,
    signature_b64: Seq<char>,
)
    requires
        forall|i: int| 0 <= i < key_hex.len() ==> !('A' <= #[trigger] key_hex[i] <= 'F'),
    ensures
        handlers::decoded_bundle(key_hex, payload_b64, signature_b64) matches Ok(bundle)
            ==> bundle.name() == key_hex,
        forall|field: KeyField|
            #[trigger] SubmissionContent::from_encoded(
                key_hex,
                payload_b64,
                signature_b64,
                field,
            ) matches Ok(submission) ==> submission.name() == key_hex,
{
    if encoding::is_hex(key_hex) {
        encoding::lowercase_hex_is_canonical(key_hex);
    }
}

// ---- the wires agree ---------------------------------------------------------

/// The text wire and the byte wire decode a bundle alike, refusals included.
pub proof fn text_and_byte_wires_agree(key: Seq<u8>, payload: Seq<u8>, signature: Seq<u8>)
    ensures
        handlers::decoded_bundle(
            encoding::hex_text(key),
            encoding::base64_text(payload),
            encoding::base64_text(signature),
        ) == BundleContent::from_bytes(key, payload, signature),
{
    encoding::hex_round_trip(key);
    encoding::base64_round_trip(payload);
    encoding::base64_round_trip(signature);
}

/// The text wire and the byte wire decode a submission alike: both refuse the
/// same ones, and the others come out the same.
pub proof fn text_and_byte_submissions_agree(
    key: Seq<u8>,
    payload: Seq<u8>,
    signature: Seq<u8>,
    field: KeyField,
)
    ensures
        ({
            let text = SubmissionContent::from_encoded(
                encoding::hex_text(key),
                encoding::base64_text(payload),
                encoding::base64_text(signature),
                field,
            );
            let bytes = SubmissionContent::from_bytes(key, payload, signature, field);
            &&& text is Ok <==> bytes is Ok
            &&& text is Ok ==> text == bytes
        }),
{
    encoding::hex_round_trip(key);
    encoding::base64_round_trip(payload);
    encoding::base64_round_trip(signature);
}

/// The casing of a key does not matter: texts that differ only in it decode to
/// one bundle, filed under one name.
pub proof fn casing_of_the_key_does_not_matter(
    a: Seq<char>,
    b: Seq<char>,
    payload_b64: Seq<char>,
    signature_b64: Seq<char>,
)
    requires
        a.len() == b.len(),
        forall|i: int| 0 <= i < a.len() ==> #[trigger] encoding::same_digit(a[i], b[i]),
    ensures
        handlers::decoded_bundle(a, payload_b64, signature_b64) == handlers::decoded_bundle(
            b,
            payload_b64,
            signature_b64,
        ),
        forall|field: KeyField|
            #[trigger] SubmissionContent::from_encoded(a, payload_b64, signature_b64, field)
                == SubmissionContent::from_encoded(b, payload_b64, signature_b64, field),
{
    encoding::hex_ignores_case(a, b);
}

/// Distinct keys are filed under distinct names.
pub proof fn names_are_distinct(a: BundleContent, b: BundleContent)
    requires
        a.name() == b.name(),
    ensures
        a.key == b.key,
{
    encoding::hex_round_trip(a.key);
    encoding::hex_round_trip(b.key);
}

/// Submissions are held to the rules of bundles: a submission is taken exactly
/// if the bundle it carries is, the row filed is the same, and so is its
/// lamport.
pub proof fn bundles_and_submissions_follow_the_same_rules(
    submission: SubmissionContent,
    field: KeyField,
)
    ensures
        submission.name() == submission.bundle().name(),
        submission.signed_payload() == submission.bundle().signed_payload(),
        submission.verified(field) is Ok <==> submission.bundle().verified() is Ok,
        submission.account_lamport() is Ok <==> submission.bundle().account_lamport() is Ok,
        submission.account_lamport() is Ok ==> submission.account_lamport()
            == submission.bundle().account_lamport(),
{
}

// ---- anti-replay -------------------------------------------------------------

/// The lamport is read from where a payload puts it, whatever follows.
pub proof fn lamport_is_read_back(version: u8, lamport: u64, rest: Seq<u8>)
    ensures
        store::lamport_of(
            store::bundle_domain() + seq![version] + vstd::bytes::spec_u64_to_le_bytes(lamport)
                + rest,
        ) == Some(lamport),
{
    vstd::bytes::lemma_auto_spec_u64_to_from_le_bytes();
    let domain = store::bundle_domain();
    let le = vstd::bytes::spec_u64_to_le_bytes(lamport);
    let payload = domain + seq![version] + le + rest;
    assert(le.len() == 8);
    assert(domain.len() == 30);
    assert(payload.subrange(0, 30) =~= domain);
    assert(payload.subrange(31, 39) =~= le);
}

/// The lamport of the bundle stored for an account.
pub open spec fn stored_lamport(state: StoreState, account_pub: Seq<char>) -> Option<u64> {
    match state.account(account_pub) {
        Some(bundle) => store::lamport_of(bundle.content.payload),
        None => None,
    }
}

/// Once a bundle is stored, neither it nor any bundle with a lamport as low is
/// taken for that account, and offering one changes nothing, the time stamp
/// included.
pub proof fn replay_is_refused(
    state: StoreState,
    account_pub: Seq<char>,
    replayed: u64,
    content: SignedPayload,
    now_ms: u64,
)
    requires
        stored_lamport(state, account_pub) matches Some(stored) && replayed <= stored,
    ensures
        !state.accepts_account(account_pub, replayed),
        state.offered_account(account_pub, replayed, content, now_ms) == state,
{
}

/// A strictly higher lamport is always taken.
pub proof fn newer_account_bundle_is_accepted(
    state: StoreState,
    account_pub: Seq<char>,
    lamport: u64,
)
    requires
        stored_lamport(state, account_pub) matches Some(stored) ==> lamport > stored,
    ensures
        state.accepts_account(account_pub, lamport),
{
}

/// A replay does not keep a bundle alive: pruning after it leaves what pruning
/// without it leaves.
pub proof fn replay_does_not_extend_retention(
    state: StoreState,
    account_pub: Seq<char>,
    replayed: u64,
    content: SignedPayload,
    now_ms: u64,
    cutoff: i64,
)
    requires
        stored_lamport(state, account_pub) matches Some(stored) && replayed <= stored,
    ensures
        state.offered_account(account_pub, replayed, content, now_ms).with_pruned_accounts(cutoff)
            == state.with_pruned_accounts(cutoff),
{
}

/// No event but a prune of the accounts lowers or removes a stored lamport, and
/// only a change of it changes the bundle or its time stamp.
pub proof fn lamports_only_grow(state: StoreState, event: Event, account_pub: Seq<char>)
    requires
        stored_lamport(state, account_pub) is Some,
        !(event is PruneAccounts),
    ensures
        stored_lamport(after(state, event), account_pub) is Some,
        stored_lamport(after(state, event), account_pub)->0 >= stored_lamport(
            state,
            account_pub,
        )->0,
        stored_lamport(after(state, event), account_pub) == stored_lamport(state, account_pub)
            ==> after(state, event).account(account_pub) == state.account(account_pub),
{
}

/// Over a run without a prune of the accounts a stored device list is never
/// downgraded.
pub proof fn device_lists_are_never_downgraded(
    state: StoreState,
    events: Seq<Event>,
    account_pub: Seq<char>,
)
    requires
        stored_lamport(state, account_pub) is Some,
        forall|i: int| 0 <= i < events.len() ==> !(#[trigger] events[i] is PruneAccounts),
    ensures
        stored_lamport(after_all(state, events), account_pub) is Some,
        stored_lamport(after_all(state, events), account_pub)->0 >= stored_lamport(
            state,
            account_pub,
        )->0,
    decreases events.len(),
{
    if events.len() > 0 {
        let front = events.drop_last();
        assert forall|i: int| 0 <= i < front.len() implies !(#[trigger] front[i] is PruneAccounts) by {
            assert(front[i] == events[i]);
        }
        device_lists_are_never_downgraded(state, front, account_pub);
        assert(!(events[events.len() - 1] is PruneAccounts));
        lamports_only_grow(after_all(state, front), events.last(), account_pub);
    }
}

/// Whether an event publishes an authentic bundle with this lamport for an
/// account.
pub open spec fn offers_lamport(event: Event, account_pub: Seq<char>, lamport: u64) -> bool {
    &&& event matches Event::Account { bundle, .. }
    &&& bundle.name() == account_pub
    &&& bundle.account_lamport() == Ok::<u64, Seq<char>>(lamport)
}

/// Whether event `k` of a run published the account's highest lamport, and was the
/// first to publish it.
pub open spec fn is_first_with_highest(
    events: Seq<Event>,
    account_pub: Seq<char>,
    k: int,
    highest: u64,
) -> bool {
    &&& 0 <= k < events.len()
    &&& offers_lamport(events[k], account_pub, highest)
    &&& forall|i: int, lamport: u64|
        0 <= i < events.len() && #[trigger] offers_lamport(events[i], account_pub, lamport)
            ==> lamport <= highest && (lamport == highest ==> k <= i)
}

/// The bundle that an event publishes for an account, as it is stored.
pub open spec fn as_stored(event: Event) -> AccountBundle {
    AccountBundle {
        content: event->Account_bundle.signed_payload(),
        updated_at: event->Account_now_ms as i64,
    }
}

/// Over a run without a prune of the accounts, what is stored for an account is
/// the bundle with the highest lamport published, and of several with that
/// lamport the first; nothing is stored where nothing was published.
pub proof fn stored_bundle_is_the_first_with_the_highest_lamport(
    events: Seq<Event>,
    account_pub: Seq<char>,
)
    requires
        forall|i: int| 0 <= i < events.len() ==> !(#[trigger] events[i] is PruneAccounts),
    ensures
        match after_all(StoreState::empty(), events).account(account_pub) {
            Some(stored) => exists|k: int, highest: u64| #[trigger]
                is_first_with_highest(events, account_pub, k, highest) && stored == as_stored(
                    events[k],
                ),
            None => forall|i: int, lamport: u64|
                0 <= i < events.len() ==> !#[trigger] offers_lamport(
                    events[i],
                    account_pub,
                    lamport,
                ),
        },
    decreases events.len(),
{
    if events.len() > 0 {
        let front = events.drop_last();
        let end = events.len() - 1;
        let event = events[end];
        assert forall|i: int| 0 <= i < front.len() implies !(#[trigger] front[i] is PruneAccounts) by {
            assert(front[i] == events[i]);
        }
        stored_bundle_is_the_first_with_the_highest_lamport(front, account_pub);
        let middle = after_all(StoreState::empty(), front);
        assert(!(event is PruneAccounts));
        assert forall|i: int, lamport: u64|
            0 <= i < front.len() && #[trigger] offers_lamport(
                events[i],
                account_pub,
                lamport,
            ) implies offers_lamport(front[i], account_pub, lamport) by {
            assert(front[i] == events[i]);
        }
        if let Some(stored) = middle.account(account_pub) {
            let (k, highest) = choose|k: int, highest: u64| #[trigger]
                is_first_with_highest(front, account_pub, k, highest) && stored == as_stored(
                    front[k],
                );
            assert(front[k] == events[k]);
            assert(store::lamport_of(stored.content.payload) == Some(highest));
            match event {
                Event::Account { bundle, now_ms } => match bundle.account_lamport() {
                    Ok(lamport) => {
                        if bundle.name() == account_pub && lamport > highest {
                            assert(offers_lamport(event, account_pub, lamport));
                            assert(is_first_with_highest(events, account_pub, end, lamport));
                        } else {
                            assert(is_first_with_highest(events, account_pub, k, highest));
                        }
                    },
                    Err(_) => {
                        assert(is_first_with_highest(events, account_pub, k, highest));
                    },
                },
                _ => {
                    assert(is_first_with_highest(events, account_pub, k, highest));
                },
            }
        } else {
            match event {
                Event::Account { bundle, now_ms } => match bundle.account_lamport() {
                    Ok(lamport) => {
                        if bundle.name() == account_pub {
                            assert(offers_lamport(event, account_pub, lamport));
                            assert(is_first_with_highest(events, account_pub, end, lamport));
                        }
                    },
                    Err(_) => {},
                },
                _ => {},
            }
        }
    }
}

/// Nothing is stored for an account that never published, whatever else happened.
pub proof fn unpublished_account_has_no_bundle(events: Seq<Event>, account_pub: Seq<char>)
    requires
        forall|i: int, lamport: u64|
            0 <= i < events.len() ==> !#[trigger] offers_lamport(events[i], account_pub, lamport),
    ensures
        after_all(StoreState::empty(), events).account(account_pub) is None,
    decreases events.len(),
{
    if events.len() > 0 {
        let front = events.drop_last();
        assert forall|i: int, lamport: u64| 0 <= i < front.len() implies !#[trigger] offers_lamport(
            front[i],
            account_pub,
            lamport,
        ) by {
            assert(!offers_lamport(events[i], account_pub, lamport));
        }
        unpublished_account_has_no_bundle(front, account_pub);
        if let Event::Account { bundle, now_ms } = events[events.len() - 1] {
            if let Ok(lamport) = bundle.account_lamport() {
                assert(!offers_lamport(events[events.len() - 1], account_pub, lamport));
            }
        }
    }
}

// ---- account logs ------------------------------------------------------------

/// No event removes a stored log or rewrites an entry of it: the log only grows
/// at its end.
pub proof fn logs_only_grow(state: StoreState, event: Event, addr: Seq<char>)
    requires
        state.logs.contains_key(addr),
    ensures
        after(state, event).logs.contains_key(addr),
        state.logs[addr].entries.is_prefix_of(after(state, event).logs[addr].entries),
{
}

/// Over any run a stored log only grows at its end.
pub proof fn logs_are_append_only(state: StoreState, events: Seq<Event>, addr: Seq<char>)
    requires
        state.logs.contains_key(addr),
    ensures
        after_all(state, events).logs.contains_key(addr),
        state.logs[addr].entries.is_prefix_of(after_all(state, events).logs[addr].entries),
    decreases events.len(),
{
    if events.len() > 0 {
        let front = events.drop_last();
        logs_are_append_only(state, front, addr);
        let middle = after_all(state, front);
        logs_only_grow(middle, events.last(), addr);
        let first = state.logs[addr].entries;
        let second = middle.logs[addr].entries;
        let third = after(middle, events.last()).logs[addr].entries;
        assert forall|i: int| 0 <= i < first.len() implies first[i] == third[i] by {
            assert(second.subrange(0, first.len() as int)[i] == first[i]);
            assert(third.subrange(0, second.len() as int)[i] == second[i]);
        }
        assert(third.subrange(0, first.len() as int) =~= first);
    }
}

/// Publishing a log again right after it was taken is accepted and changes
/// nothing.
pub proof fn republishing_a_log_is_harmless(state: StoreState, addr: Seq<char>, log: AccountLog)
    requires
        state.log_outcome(addr, log) == Outcome::Updated,
    ensures
        state.offered_log(addr, log).log_outcome(addr, log) == Outcome::Unchanged(
            LogFreshness::Identical,
        ),
        state.offered_log(addr, log).offered_log(addr, log) == state.offered_log(addr, log),
{
}

/// After a log was extended, the log it extended is stale.
pub proof fn an_extended_log_is_stale(
    state: StoreState,
    addr: Seq<char>,
    longer: AccountLog,
)
    requires
        state.logs.contains_key(addr),
        state.log_outcome(addr, longer) == Outcome::Updated,
    ensures
        state.offered_log(addr, longer).log_outcome(addr, state.logs[addr]) == Outcome::Unchanged(
            LogFreshness::Behind,
        ),
{
    account_log::freshness_mirrors(state.logs[addr].entries, longer.entries);
}

// ---- one name does not affect another ----------------------------------------

/// Publishing under one key leaves everything filed under other keys, and
/// everything of another kind, as it is.
pub proof fn publishing_touches_one_name(state: StoreState, event: Event, other: Seq<char>)
    requires
        event matches Event::KeyPackage { bundle, .. } ==> bundle.name() != other,
        event matches Event::Account { bundle, .. } ==> bundle.name() != other,
        event matches Event::Log { addr, .. } ==> addr != other,
        !(event is PruneKeyPackages),
        !(event is PruneAccounts),
    ensures
        after(state, event).history(other) == state.history(other),
        after(state, event).latest(other) == state.latest(other),
        after(state, event).account(other) == state.account(other),
        after(state, event).logs.contains_key(other) == state.logs.contains_key(other),
        after(state, event).logs[other] == state.logs[other],
        event is KeyPackage ==> after(state, event).accounts == state.accounts && after(
            state,
            event,
        ).logs == state.logs,
        event is Account ==> after(state, event).key_packages == state.key_packages && after(
            state,
            event,
        ).logs == state.logs,
        event is Log ==> after(state, event).key_packages == state.key_packages && after(
            state,
            event,
        ).accounts == state.accounts,
{
}

// ---- retention ---------------------------------------------------------------

/// Every device's history is pruned on its own, by its own receipts alone.
pub proof fn devices_are_pruned_independently(
    state: StoreState,
    device_id: Seq<char>,
    cutoff: i64,
    max: nat,
)
    ensures
        state.with_pruned_key_packages(cutoff, max).history(device_id) == store::pruned(
            state.history(device_id),
            cutoff,
            max,
        ),
{
    let left = store::pruned(state.history(device_id), cutoff, max);
    let next = state.with_pruned_key_packages(cutoff, max);
    assert(next.history(device_id) =~= left);
}

/// After a prune a device holds nothing older than the cutoff and no more than
/// the maximum: all its fresh receipts if there are no more than that, else
/// exactly the maximum.
pub proof fn prune_bounds_every_history(
    state: StoreState,
    device_id: Seq<char>,
    cutoff: i64,
    max: nat,
)
    ensures
        ({
            let left = state.with_pruned_key_packages(cutoff, max).history(device_id);
            let fresh = history::fresh_receipts(
                store::stamps(state.history(device_id)),
                cutoff,
            ).len();
            &&& left.len() <= max
            &&& left.len() == if fresh <= max {
                fresh
            } else {
                max
            }
            &&& forall|i: int| 0 <= i < left.len() ==> (#[trigger] left[i]).received_at >= cutoff
        }),
{
    let receipts = state.history(device_id);
    let stamps = store::stamps(receipts);
    let keep = history::survivors(stamps, cutoff, max);
    devices_are_pruned_independently(state, device_id, cutoff, max);
    history::prune_leaves_min_of_fresh_and_max(receipts, stamps, cutoff, max);
    history::lemma_positions(keep);
    let left = store::pruned(receipts, cutoff, max);
    assert forall|i: int| 0 <= i < left.len() implies (#[trigger] left[i]).received_at >= cutoff by {
        let j = history::positions(keep)[i];
        assert(keep[j]);
        assert(left[i] == receipts[j]);
        assert(stamps[j] == receipts[j].received_at);
    }
}

/// A prune with the largest maximum drops exactly what is older than the cutoff:
/// no store holds more receipts of a device than that.
pub proof fn prune_with_the_largest_maximum_drops_only_the_old(
    store: &Store,
    device_id: Seq<char>,
    cutoff: i64,
)
    ensures
        ({
            let receipts = store@.history(device_id);
            let keep = history::survivors(store::stamps(receipts), cutoff, usize::MAX as nat);
            &&& store@.with_pruned_key_packages(cutoff, usize::MAX as nat).history(device_id)
                == history::picked(receipts, keep)
            &&& keep.len() == receipts.len()
            &&& forall|i: int|
                0 <= i < receipts.len() ==> #[trigger] keep[i] == (receipts[i].received_at
                    >= cutoff)
        }),
{
    let receipts = store@.history(device_id);
    let stamps = store::stamps(receipts);
    store::history_fits_the_machine(store, device_id);
    devices_are_pruned_independently(store@, device_id, cutoff, usize::MAX as nat);
    history::prune_with_room_drops_only_the_old(stamps, cutoff, usize::MAX as nat);
    assert forall|i: int| 0 <= i < receipts.len() implies #[trigger] history::survivors(
        stamps,
        cutoff,
        usize::MAX as nat,
    )[i] == (receipts[i].received_at >= cutoff) by {
        assert(history::survives(stamps, i, cutoff, usize::MAX as nat) <==> stamps[i] >= cutoff);
        assert(stamps[i] == receipts[i].received_at);
    }
}

/// A prune does not change which key package is fetched, as long as that one is
/// fresh, no other is stamped later, and any may stay.
pub proof fn prune_leaves_the_fetched_key_package(
    state: StoreState,
    device_id: Seq<char>,
    cutoff: i64,
    max: nat,
)
    requires
        max > 0,
        state.history(device_id).len() > 0,
        state.history(device_id).last().received_at >= cutoff,
        forall|i: int|
            0 <= i < state.history(device_id).len() ==> (#[trigger] state.history(
                device_id,
            )[i]).received_at <= state.history(device_id).last().received_at,
    ensures
        state.with_pruned_key_packages(cutoff, max).latest(device_id) == state.latest(device_id),
{
    let receipts = state.history(device_id);
    let stamps = store::stamps(receipts);
    let keep = history::survivors(stamps, cutoff, max);
    let left = store::pruned(receipts, cutoff, max);
    let last = receipts.len() - 1;
    assert forall|i: int| 0 <= i < last implies #[trigger] stamps.drop_last()[i] <= stamps[last] by {
        assert(stamps[i] == receipts[i].received_at && stamps[last] == receipts[last].received_at);
    }
    history::last_receipt_is_newest(stamps.drop_last(), stamps[last]);
    assert(stamps.drop_last().push(stamps[last]) =~= stamps);
    let k = history::prune_leaves_the_newest(stamps, last, cutoff, max);
    history::lemma_positions(keep);
    let p = history::positions(keep);
    assert(k == left.len() - 1) by {
        if k < left.len() - 1 {
            assert(p[k] < p[left.len() - 1]);
        }
    }
    devices_are_pruned_independently(state, device_id, cutoff, max);
}

/// Pruning again at the same cutoff changes nothing.
pub proof fn pruning_twice_is_pruning_once(state: StoreState, cutoff: i64, max: nat)
    ensures
        ({
            let once = state.with_pruned_key_packages(cutoff, max);
            once.with_pruned_key_packages(cutoff, max) == once
        }),
        ({
            let once = state.with_pruned_accounts(cutoff);
            once.with_pruned_accounts(cutoff) == once
        }),
{
    let once = state.with_pruned_key_packages(cutoff, max);
    let twice = once.with_pruned_key_packages(cutoff, max);
    assert forall|device_id: Seq<char>| #[trigger]
        once.key_packages.contains_key(device_id) implies store::pruned(
        once.key_packages[device_id],
        cutoff,
        max,
    ) == once.key_packages[device_id] by {
        let receipts = state.key_packages[device_id];
        let stamps = store::stamps(receipts);
        let keep = history::survivors(stamps, cutoff, max);
        history::lemma_positions(keep);
        history::prune_is_idempotent(receipts, stamps, cutoff, max);
        assert(store::stamps(once.key_packages[device_id]) =~= history::picked(stamps, keep));
    }
    assert(twice.key_packages =~= once.key_packages);
    assert(twice =~= once);
    let alive = state.with_pruned_accounts(cutoff);
    assert(alive.with_pruned_accounts(cutoff).accounts =~= alive.accounts);
    assert(alive.with_pruned_accounts(cutoff) =~= alive);
}

/// A prune of the accounts drops the bundles stored before the cutoff and
/// nothing else.
pub proof fn prune_drops_expired_accounts(state: StoreState, account_pub: Seq<char>, cutoff: i64)
    ensures
        state.with_pruned_accounts(cutoff).account(account_pub) == match state.account(
            account_pub,
        ) {
            Some(bundle) => if bundle.updated_at >= cutoff {
                Some(bundle)
            } else {
                None
            },
            None => None,
        },
        state.with_pruned_accounts(cutoff).key_packages == state.key_packages,
        state.with_pruned_accounts(cutoff).logs == state.logs,
{
}

/// A bundle that was stored within the retention window is not expired: on a
/// clock that does not run past the range of a time stamp, what was stamped at
/// `then_ms` survives a prune at `now_ms` exactly if it is no older than the
/// window.
pub proof fn retention_counts_from_the_stamp(then_ms: u64, now_ms: u64, retention_ms: u128)
    requires
        then_ms <= i64::MAX,
        now_ms <= i64::MAX,
    ensures
        then_ms as i64 >= store::cutoff_at(now_ms, retention_ms) <==> now_ms - then_ms
            <= retention_ms,
{
}

} // verus!
