//! Bundles: an opaque payload and its signature, published under the key that
//! signed it.
//!
//! Every wire decodes into a [`Bundle`], so the rules on what is stored are the
//! same whichever wire carried it. Applying a bundle has four steps, which are
//! also there one by one for a caller that keeps the rows elsewhere: verify the
//! bundle, prepare the row, offer it to the store, conclude from what the store
//! said.
use vstd::prelude::*;
use vstd::string::*;

use crate::account_log::{AccountLogError, AccountLogRecord, LogFreshness, Outcome};
use crate::clock;
use crate::encoding;
use crate::laws;
use crate::laws::Event;
use crate::signing;
use crate::store;
use crate::store::{
    copy_bytes, payload_lamport, SignedPayload, Store, StoredAccountBundle, StoredKeyPackageBundle,
};

verus! {

/// Why a bundle was not stored.
#[derive(Debug)]
pub enum BundleError {
    /// Malformed bundle or failed signature verification.
    Invalid(&'static str),
    /// Authentic account log that does not decode, or breaks the log's rules.
    MalformedLog(AccountLogError),
    /// Valid account bundle or log that is not newer than the stored one.
    Stale,
    /// Valid account log that rewrites the stored one instead of extending it.
    Forked,
    /// Storage failure.
    Internal(String),
}

impl BundleError {
    /// The error in words.
    pub open spec fn text(self) -> Seq<char> {
        match self {
            BundleError::Invalid(message) => message@,
            BundleError::MalformedLog(err) => err.reason(),
            BundleError::Stale => "stale bundle: not newer than the stored one"@,
            BundleError::Forked => "forked log: does not extend the stored one"@,
            BundleError::Internal(err) => "internal: "@ + err@,
        }
    }

    /// Whether this is the refusal of an invalid bundle with this message.
    pub open spec fn is_refusal(self, message: Seq<char>) -> bool {
        self matches BundleError::Invalid(m) && m@ == message
    }

    /// The error in words.
    pub fn to_string(&self) -> (text: String)
        ensures
            text@ == self.text(),
    {
        match self {
            BundleError::Invalid(message) => (*message).to_owned(),
            BundleError::MalformedLog(err) => err.to_string(),
            BundleError::Stale => "stale bundle: not newer than the stored one".to_owned(),
            BundleError::Forked => "forked log: does not extend the stored one".to_owned(),
            BundleError::Internal(err) => "internal: ".to_owned().concat(err.as_str()),
        }
    }
}

/// A bundle as it came off a wire, before verification.
#[derive(Debug)]
pub struct Bundle {
    pub key: [u8; 32],
    pub payload: Vec<u8>,
    pub signature: [u8; 64],
}

/// The bytes that a bundle carries.
#[verifier::ext_equal]
pub struct BundleContent {
    pub key: Seq<u8>,
    pub payload: Seq<u8>,
    pub signature: Seq<u8>,
}

impl View for Bundle {
    type V = BundleContent;

    open spec fn view(&self) -> BundleContent {
        BundleContent { key: self.key@, payload: self.payload@, signature: self.signature@ }
    }
}

impl BundleContent {
    /// The bundle with these bytes, or the message that refuses them.
    pub open spec fn from_bytes(
        key: Seq<u8>,
        payload: Seq<u8>,
        signature: Seq<u8>,
    ) -> Result<BundleContent, Seq<char>> {
        if key.len() != 32 {
            Err("key: must be 32 bytes"@)
        } else if signature.len() != 64 {
            Err("signature: must be 64 bytes"@)
        } else {
            Ok(BundleContent { key, payload, signature })
        }
    }

    /// Under which name the store files the bundle: the lowercase hex of its key.
    pub open spec fn name(self) -> Seq<char> {
        encoding::hex_text(self.key)
    }

    /// What the store keeps of the bundle.
    pub open spec fn signed_payload(self) -> SignedPayload {
        SignedPayload { payload: self.payload, signature: self.signature }
    }

    /// Whether the bundle was signed by the holder of its key.
    pub open spec fn is_authentic(self) -> bool {
        signing::is_ed25519_key(self.key) && signing::is_ed25519_signature(
            self.key,
            self.payload,
            self.signature,
        )
    }

    /// `Ok` for an authentic bundle, else the message that refuses it.
    pub open spec fn verified(self) -> Result<(), Seq<char>> {
        if !signing::is_ed25519_key(self.key) {
            Err("key: not a valid ed25519 key"@)
        } else if !signing::is_ed25519_signature(self.key, self.payload, self.signature) {
            Err("signature: verification failed"@)
        } else {
            Ok(())
        }
    }

    /// The lamport of an authentic account bundle, or the message that refuses
    /// the bundle.
    pub open spec fn account_lamport(self) -> Result<u64, Seq<char>> {
        match self.verified() {
            Err(message) => Err(message),
            Ok(_) => match store::lamport_of(self.payload) {
                Some(lamport) => Ok(lamport),
                None => Err("payload: too short to contain a lamport header"@),
            },
        }
    }
}

/// Whether a bundle, or the refusal of one, is what it should be.
pub open spec fn is_decoding(
    result: Result<Bundle, BundleError>,
    expected: Result<BundleContent, Seq<char>>,
) -> bool {
    match expected {
        Ok(content) => result matches Ok(bundle) && bundle@ == content,
        Err(message) => result matches Err(err) && err.is_refusal(message),
    }
}

impl Bundle {
    /// A bundle from raw bytes, as the protobuf wire carries them.
    pub fn from_bytes(key: &[u8], payload: &[u8], signature: &[u8]) -> (result: Result<
        Bundle,
        BundleError,
    >)
        ensures
            is_decoding(result, BundleContent::from_bytes(key@, payload@, signature@)),
            result is Ok <==> key@.len() == 32 && signature@.len() == 64,
            result matches Ok(b) ==> b.key@ == key@ && b.payload@ == payload@ && b.signature@
                == signature@,
    {
        let key = match signing::to_array::<32>(key) {
            Some(key) => key,
            None => {
                return Err(BundleError::Invalid("key: must be 32 bytes"));
            },
        };
        let signature = match signing::to_array::<64>(signature) {
            Some(signature) => signature,
            None => {
                return Err(BundleError::Invalid("signature: must be 64 bytes"));
            },
        };
        Ok(Bundle { key, payload: copy_bytes(payload), signature })
    }

    /// The lowercase hex of the bundle's key, which the store files it under. It
    /// is the same whichever wire and whichever casing the key arrived in.
    pub fn key_hex(&self) -> (text: String)
        ensures
            text@ == self@.name(),
    {
        encoding::hex_encode(&self.key)
    }
}

/// What verification finds, given whether the key bytes are a key and whether
/// the signature verifies under it.
pub fn judge(is_key: bool, is_signed: bool) -> (result: Result<(), BundleError>)
    ensures
        result is Ok <==> is_key && is_signed,
        !is_key ==> (result matches Err(err) && err.is_refusal("key: not a valid ed25519 key"@)),
        is_key && !is_signed ==> (result matches Err(err) && err.is_refusal(
            "signature: verification failed"@,
        )),
{
    if !is_key {
        Err(BundleError::Invalid("key: not a valid ed25519 key"))
    } else if !is_signed {
        Err(BundleError::Invalid("signature: verification failed"))
    } else {
        Ok(())
    }
}

/// Verifies proof of possession: that the signature over the payload is valid
/// under the bundle's key. The payload stays opaque.
pub fn verify(bundle: &Bundle) -> (result: Result<(), BundleError>)
    ensures
        match bundle@.verified() {
            Ok(_) => result is Ok,
            Err(message) => result matches Err(err) && err.is_refusal(message),
        },
        result is Ok <==> signing::is_ed25519_key(bundle.key@) && signing::is_ed25519_signature(
            bundle.key@,
            bundle.payload@,
            bundle.signature@,
        ),
{
    let is_key = signing::verifying_key(&bundle.key).is_ok();
    let is_signed = is_key && signing::verify_strict(
        &bundle.key,
        bundle.payload.as_slice(),
        &bundle.signature,
    ).is_ok();
    judge(is_key, is_signed)
}

/// Makes the row to store out of a key-package bundle and the finding on it: the
/// device and its key package.
pub fn prepare_keypackage(bundle: &Bundle, verified: Result<(), BundleError>) -> (result: Result<
    (String, StoredKeyPackageBundle),
    BundleError,
>)
    ensures
        match verified {
            Ok(_) => {
                &&& result matches Ok((device_id, row))
                &&& device_id@ == bundle@.name()
                &&& row@ == bundle@.signed_payload()
            },
            Err(err) => result == Err::<(String, StoredKeyPackageBundle), BundleError>(err),
        },
{
    match verified {
        Ok(_) => Ok(
            (
                bundle.key_hex(),
                StoredKeyPackageBundle {
                    payload: copy_bytes(bundle.payload.as_slice()),
                    signature: copy_bytes(&bundle.signature),
                },
            ),
        ),
        Err(err) => Err(err),
    }
}

/// What a key-package submission is answered when storing it succeeded or
/// failed.
pub fn conclude_keypackage(stored: Result<(), String>) -> (result: Result<(), BundleError>)
    ensures
        match stored {
            Ok(_) => result is Ok,
            Err(failure) => result matches Err(BundleError::Internal(err)) && err@ == failure@,
        },
{
    match stored {
        Ok(_) => Ok(()),
        Err(failure) => Err(BundleError::Internal(failure)),
    }
}

/// Stores a key-package bundle if the finding on it is good.
pub fn admit_keypackage(
    store: &mut Store,
    bundle: &Bundle,
    verified: Result<(), BundleError>,
) -> (result: Result<(), BundleError>)
    ensures
        match verified {
            Ok(_) => result is Ok && exists|now: u64| #[trigger]
                clock::is_clock_reading(now) && final(store)@ == old(store)@.with_key_package(
                    bundle@.name(),
                    bundle@.signed_payload(),
                    now,
                ),
            Err(err) => result == Err::<(), BundleError>(err) && final(store)@ == old(store)@,
        },
        result is Err ==> final(store)@ == old(store)@,
{
    match prepare_keypackage(bundle, verified) {
        Ok((device_id, row)) => {
            store.insert(device_id.as_str(), &row);
            conclude_keypackage(Ok(()))
        },
        Err(err) => Err(err),
    }
}

/// Verifies and stores a key-package bundle.
pub fn apply_keypackage(store: &mut Store, bundle: &Bundle) -> (result: Result<(), BundleError>)
    ensures
        match bundle@.verified() {
            Ok(_) => result is Ok && exists|now: u64| #[trigger]
                clock::is_clock_reading(now) && final(store)@ == old(store)@.with_key_package(
                    bundle@.name(),
                    bundle@.signed_payload(),
                    now,
                ),
            Err(message) => {
                &&& result matches Err(err)
                &&& err.is_refusal(message)
                &&& final(store)@ == old(store)@
            },
        },
        result is Err ==> final(store)@ == old(store)@,
        exists|now: u64|
            final(store)@ == #[trigger] laws::after(
                old(store)@,
                (Event::KeyPackage { bundle: bundle@, now_ms: now }),
            ),
        result is Ok <==> signing::is_ed25519_key(bundle.key@) && signing::is_ed25519_signature(
            bundle.key@,
            bundle.payload@,
            bundle.signature@,
        ),
{
    let verified = verify(bundle);
    let result = admit_keypackage(store, bundle, verified);
    proof {
        let before = old(store)@;
        let now = choose|now: u64|
            store@ == #[trigger] before.with_key_package(
                bundle@.name(),
                bundle@.signed_payload(),
                now,
            );
        assert(store@ == laws::after(before, Event::KeyPackage { bundle: bundle@, now_ms: now }));
    }
    result
}

/// Makes the row to offer to the store out of an account bundle and the finding
/// on it: the account, the lamport and the bundle. The lamport can be trusted:
/// the signature covers it.
pub fn prepare_account(bundle: &Bundle, verified: Result<(), BundleError>) -> (result: Result<
    (String, u64, StoredAccountBundle),
    BundleError,
>)
    ensures
        match (verified, store::lamport_of(bundle@.payload)) {
            (Ok(_), Some(expected)) => {
                &&& result matches Ok((account_pub, lamport, row))
                &&& account_pub@ == bundle@.name()
                &&& lamport == expected
                &&& row@.content == bundle@.signed_payload()
                &&& row@.updated_at == 0
            },
            (Ok(_), None) => result matches Err(err) && err.is_refusal(
                "payload: too short to contain a lamport header"@,
            ),
            (Err(err), _) => result == Err::<(String, u64, StoredAccountBundle), BundleError>(err),
        },
{
    match verified {
        Ok(_) => match payload_lamport(bundle.payload.as_slice()) {
            Some(lamport) => Ok(
                (
                    bundle.key_hex(),
                    lamport,
                    StoredAccountBundle {
                        payload: copy_bytes(bundle.payload.as_slice()),
                        signature: copy_bytes(&bundle.signature),
                        updated_at: 0,
                    },
                ),
            ),
            None => Err(BundleError::Invalid("payload: too short to contain a lamport header")),
        },
        Err(err) => Err(err),
    }
}

/// What an account submission is answered, given whether the store took it or
/// how it failed.
pub fn conclude_account(stored: Result<bool, String>) -> (result: Result<(), BundleError>)
    ensures
        match stored {
            Ok(true) => result is Ok,
            Ok(false) => result == Err::<(), BundleError>(BundleError::Stale),
            Err(failure) => result matches Err(BundleError::Internal(err)) && err@ == failure@,
        },
{
    match stored {
        Ok(true) => Ok(()),
        Ok(false) => Err(BundleError::Stale),
        Err(failure) => Err(BundleError::Internal(failure)),
    }
}

/// Stores an account bundle if the finding on it is good and it is newer than
/// the stored bundle.
pub fn admit_account(
    store: &mut Store,
    bundle: &Bundle,
    verified: Result<(), BundleError>,
) -> (result: Result<(), BundleError>)
    ensures
        match (verified, store::lamport_of(bundle@.payload)) {
            (Ok(_), Some(lamport)) => {
                &&& if old(store)@.accepts_account(bundle@.name(), lamport) {
                    result is Ok
                } else {
                    result == Err::<(), BundleError>(BundleError::Stale)
                }
                &&& exists|now: u64| #[trigger]
                    clock::is_clock_reading(now) && final(store)@ == old(store)@.offered_account(
                        bundle@.name(),
                        lamport,
                        bundle@.signed_payload(),
                        now,
                    )
            },
            (Ok(_), None) => {
                &&& result matches Err(err)
                &&& err.is_refusal("payload: too short to contain a lamport header"@)
                &&& final(store)@ == old(store)@
            },
            (Err(err), _) => result == Err::<(), BundleError>(err) && final(store)@ == old(store)@,
        },
        result is Err ==> final(store)@ == old(store)@,
{
    match prepare_account(bundle, verified) {
        Ok((account_pub, lamport, row)) => {
            let stored = store.upsert_account(account_pub.as_str(), lamport, &row);
            conclude_account(Ok(stored))
        },
        Err(err) => Err(err),
    }
}

/// Verifies an account bundle and stores it if it is newer than the stored
/// bundle.
pub fn apply_account(store: &mut Store, bundle: &Bundle) -> (result: Result<(), BundleError>)
    ensures
        match bundle@.account_lamport() {
            Ok(lamport) => {
                &&& if old(store)@.accepts_account(bundle@.name(), lamport) {
                    result is Ok
                } else {
                    result == Err::<(), BundleError>(BundleError::Stale)
                }
                &&& exists|now: u64| #[trigger]
                    clock::is_clock_reading(now) && final(store)@ == old(store)@.offered_account(
                        bundle@.name(),
                        lamport,
                        bundle@.signed_payload(),
                        now,
                    )
            },
            Err(message) => {
                &&& result matches Err(err)
                &&& err.is_refusal(message)
                &&& final(store)@ == old(store)@
            },
        },
        result is Err ==> final(store)@ == old(store)@,
        exists|now: u64|
            final(store)@ == #[trigger] laws::after(
                old(store)@,
                (Event::Account { bundle: bundle@, now_ms: now }),
            ),
{
    let verified = verify(bundle);
    let result = admit_account(store, bundle, verified);
    proof {
        let before = old(store)@;
        let lamport = bundle@.account_lamport()->Ok_0;
        let now = choose|now: u64|
            store@ == #[trigger] before.offered_account(
                bundle@.name(),
                lamport,
                bundle@.signed_payload(),
                now,
            );
        assert(store@ == laws::after(before, Event::Account { bundle: bundle@, now_ms: now }));
    }
    result
}

/// A checked account log, or what a log that fails the checks is answered.
pub fn prepare_account_log(checked: Result<AccountLogRecord, AccountLogError>) -> (result: Result<
    AccountLogRecord,
    BundleError,
>)
    ensures
        match checked {
            Ok(record) => result == Ok::<AccountLogRecord, BundleError>(record),
            Err(AccountLogError::SignatureInvalid(_)) => result matches Err(err)
                && err.is_refusal("signature: verification failed"@),
            Err(cause) => result == Err::<AccountLogRecord, BundleError>(
                BundleError::MalformedLog(cause),
            ),
        },
{
    match checked {
        Ok(record) => Ok(record),
        Err(AccountLogError::SignatureInvalid(_)) => Err(
            BundleError::Invalid("signature: verification failed"),
        ),
        Err(cause) => Err(BundleError::MalformedLog(cause)),
    }
}

/// Whether `result` is the answer to a log that met this outcome.
pub open spec fn is_log_answer(result: Result<(), BundleError>, outcome: Outcome) -> bool {
    match outcome {
        Outcome::Updated => result is Ok,
        Outcome::Unchanged(LogFreshness::Identical) => result is Ok,
        Outcome::Unchanged(LogFreshness::Behind) => result == Err::<(), BundleError>(
            BundleError::Stale,
        ),
        Outcome::Unchanged(LogFreshness::Diverged) => result == Err::<(), BundleError>(
            BundleError::Forked,
        ),
        Outcome::Unchanged(LogFreshness::Ahead) => {
            &&& result matches Err(BundleError::Internal(err))
            &&& err@ == "unexpected account log outcome: Unchanged(Ahead)"@
        },
    }
}

/// What a log submission is answered, given what became of the log or how
/// storing it failed.
pub fn conclude_account_log(stored: Result<Outcome, String>) -> (result: Result<(), BundleError>)
    ensures
        match stored {
            Ok(outcome) => is_log_answer(result, outcome),
            Err(failure) => result matches Err(BundleError::Internal(err)) && err@ == failure@,
        },
{
    match stored {
        Ok(Outcome::Updated) => Ok(()),
        Ok(Outcome::Unchanged(LogFreshness::Identical)) => Ok(()),
        Ok(Outcome::Unchanged(LogFreshness::Behind)) => Err(BundleError::Stale),
        Ok(Outcome::Unchanged(LogFreshness::Diverged)) => Err(BundleError::Forked),
        Ok(Outcome::Unchanged(LogFreshness::Ahead)) => Err(
            BundleError::Internal(
                "unexpected account log outcome: Unchanged(Ahead)".to_owned(),
            ),
        ),
        Err(failure) => Err(BundleError::Internal(failure)),
    }
}

/// Stores an account log that passed its checks if it strictly extends the
/// stored one; publishing the stored log again is accepted and changes nothing.
pub fn apply_account_log(
    store: &mut Store,
    checked: Result<AccountLogRecord, AccountLogError>,
) -> (result: Result<(), BundleError>)
    ensures
        match checked {
            Ok(record) => {
                &&& is_log_answer(result, old(store)@.log_outcome(record.addr@, record@))
                &&& final(store)@ == old(store)@.offered_log(record.addr@, record@)
            },
            Err(AccountLogError::SignatureInvalid(_)) => {
                &&& result matches Err(err)
                &&& err.is_refusal("signature: verification failed"@)
                &&& final(store)@ == old(store)@
            },
            Err(cause) => {
                &&& result == Err::<(), BundleError>(BundleError::MalformedLog(cause))
                &&& final(store)@ == old(store)@
            },
        },
        result is Err ==> final(store)@ == old(store)@,
        checked matches Ok(record) ==> final(store)@ == laws::after(
            old(store)@,
            (Event::Log { addr: record.addr@, log: record@ }),
        ),
{
    match prepare_account_log(checked) {
        Ok(record) => {
            let outcome = store.put_account_log(record);
            conclude_account_log(Ok(outcome))
        },
        Err(err) => Err(err),
    }
}

} // verus!
