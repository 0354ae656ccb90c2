//! Submissions: bundles whose errors name the field that carried the key.
//!
//! A request spells a submission in hex and base64, the protobuf wire carries
//! raw bytes; both decode into a [`Submission`], and what is stored follows the
//! same rules for both.
use vstd::prelude::*;
use vstd::string::*;

use crate::bundle::BundleContent;
use crate::clock;
use crate::encoding;
use crate::laws;
use crate::laws::Event;
use crate::signing;
use crate::store;
use crate::store::{
    copy_bytes, payload_lamport, SignedPayload, Store, StoredAccountBundle, StoredKeyPackageBundle,
};

verus! {

/// A signed key package in text.
#[derive(Debug)]
pub struct SubmitRequest {
    /// Hex of the 32-byte Ed25519 verifying key of the device.
    pub device_id: String,
    /// Base64 of the signed payload.
    pub payload: String,
    /// Base64 of the 64-byte Ed25519 signature over the payload.
    pub signature: String,
}

/// A signed account device list in text.
#[derive(Debug)]
pub struct SubmitAccountRequest {
    /// Hex of the 32-byte Ed25519 verifying key of the account.
    pub account_pub: String,
    /// Base64 of the signed payload.
    pub payload: String,
    /// Base64 of the 64-byte Ed25519 signature over the payload.
    pub signature: String,
}

/// Why a submission was not stored.
#[derive(Debug)]
pub enum SubmitError {
    /// Malformed submission or failed signature verification.
    Invalid(&'static str),
    /// Valid account bundle whose lamport is not newer than the stored one.
    Stale,
    /// Storage failure.
    Internal(String),
}

impl SubmitError {
    /// The error in words.
    pub open spec fn text(self) -> Seq<char> {
        match self {
            SubmitError::Invalid(message) => message@,
            SubmitError::Stale => "stale bundle: lamport is not newer than the stored one"@,
            SubmitError::Internal(err) => "internal: "@ + err@,
        }
    }

    /// Whether this is the refusal of an invalid submission with this message.
    pub open spec fn is_refusal(self, message: Seq<char>) -> bool {
        self matches SubmitError::Invalid(m) && m@ == message
    }

    /// The error in words.
    pub fn to_string(&self) -> (text: String)
        ensures
            text@ == self.text(),
    {
        match self {
            SubmitError::Invalid(message) => (*message).to_owned(),
            SubmitError::Stale => {
                "stale bundle: lamport is not newer than the stored one".to_owned()
            },
            SubmitError::Internal(err) => "internal: ".to_owned().concat(err.as_str()),
        }
    }
}

/// The field that carries a submission's key, after which errors are named.
#[derive(Clone, Copy)]
pub enum KeyField {
    DeviceId,
    AccountPub,
}

impl KeyField {
    pub open spec fn not_hex_text(self) -> Seq<char> {
        match self {
            KeyField::DeviceId => "device_id: must be hex of a 32-byte key"@,
            KeyField::AccountPub => "account_pub: must be hex of a 32-byte key"@,
        }
    }

    pub open spec fn not_32_bytes_text(self) -> Seq<char> {
        match self {
            KeyField::DeviceId => "device_id: must be 32 bytes"@,
            KeyField::AccountPub => "account_pub: must be 32 bytes"@,
        }
    }

    pub open spec fn not_key_text(self) -> Seq<char> {
        match self {
            KeyField::DeviceId => "device_id: not a valid ed25519 key"@,
            KeyField::AccountPub => "account_pub: not a valid ed25519 key"@,
        }
    }

    fn not_hex(self) -> (message: &'static str)
        ensures
            message@ == self.not_hex_text(),
    {
        match self {
            KeyField::DeviceId => "device_id: must be hex of a 32-byte key",
            KeyField::AccountPub => "account_pub: must be hex of a 32-byte key",
        }
    }

    fn not_32_bytes(self) -> (message: &'static str)
        ensures
            message@ == self.not_32_bytes_text(),
    {
        match self {
            KeyField::DeviceId => "device_id: must be 32 bytes",
            KeyField::AccountPub => "account_pub: must be 32 bytes",
        }
    }

    fn not_key(self) -> (message: &'static str)
        ensures
            message@ == self.not_key_text(),
    {
        match self {
            KeyField::DeviceId => "device_id: not a valid ed25519 key",
            KeyField::AccountPub => "account_pub: not a valid ed25519 key",
        }
    }
}

/// A submission as it came off a wire, before verification.
#[derive(Debug)]
pub struct Submission {
    pub key: [u8; 32],
    pub payload: Vec<u8>,
    pub signature: [u8; 64],
}

/// The bytes that a submission carries.
#[verifier::ext_equal]
pub struct SubmissionContent {
    pub key: Seq<u8>,
    pub payload: Seq<u8>,
    pub signature: Seq<u8>,
}

impl View for Submission {
    type V = SubmissionContent;

    open spec fn view(&self) -> SubmissionContent {
        SubmissionContent { key: self.key@, payload: self.payload@, signature: self.signature@ }
    }
}

impl SubmissionContent {
    /// The submission with these bytes, or the message that refuses them.
    pub open spec fn from_bytes(
        key: Seq<u8>,
        payload: Seq<u8>,
        signature: Seq<u8>,
        field: KeyField,
    ) -> Result<SubmissionContent, Seq<char>> {
        if key.len() != 32 {
            Err(field.not_32_bytes_text())
        } else if signature.len() != 64 {
            Err("signature: must be 64 bytes"@)
        } else {
            Ok(SubmissionContent { key, payload, signature })
        }
    }

    /// The submission with these texts, or the message that refuses them.
    pub open spec fn from_encoded(
        key_hex: Seq<char>,
        payload_b64: Seq<char>,
        signature_b64: Seq<char>,
        field: KeyField,
    ) -> Result<SubmissionContent, Seq<char>> {
        let key = encoding::hex_value(key_hex);
        let payload = encoding::base64_value(payload_b64);
        let signature = encoding::base64_value(signature_b64);
        if !(key matches Some(bytes) && bytes.len() == 32) {
            Err(field.not_hex_text())
        } else if payload is None {
            Err("payload: not valid base64"@)
        } else if !(signature matches Some(bytes) && bytes.len() == 64) {
            Err("signature: must be base64 of 64 bytes"@)
        } else {
            Ok(SubmissionContent { key: key->0, payload: payload->0, signature: signature->0 })
        }
    }

    /// Under which name the store files the submission: the lowercase hex of its
    /// key.
    pub open spec fn name(self) -> Seq<char> {
        encoding::hex_text(self.key)
    }

    /// What the store keeps of the submission.
    pub open spec fn signed_payload(self) -> SignedPayload {
        SignedPayload { payload: self.payload, signature: self.signature }
    }

    /// The bundle that the submission carries.
    pub open spec fn bundle(self) -> BundleContent {
        BundleContent { key: self.key, payload: self.payload, signature: self.signature }
    }

    /// `Ok` for a submission signed by the holder of its key, else the message
    /// that refuses it.
    pub open spec fn verified(self, field: KeyField) -> Result<(), Seq<char>> {
        if !signing::is_ed25519_key(self.key) {
            Err(field.not_key_text())
        } else if !signing::is_ed25519_signature(self.key, self.payload, self.signature) {
            Err("signature: verification failed"@)
        } else {
            Ok(())
        }
    }

    /// The lamport of an authentic account submission, or the message that
    /// refuses it.
    pub open spec fn account_lamport(self) -> Result<u64, Seq<char>> {
        match self.verified(KeyField::AccountPub) {
            Err(message) => Err(message),
            Ok(_) => match store::lamport_of(self.payload) {
                Some(lamport) => Ok(lamport),
                None => Err("payload: too short to contain a lamport header"@),
            },
        }
    }
}

/// Whether a submission, or the refusal of one, is what it should be.
pub open spec fn is_decoding(
    result: Result<Submission, SubmitError>,
    expected: Result<SubmissionContent, Seq<char>>,
) -> bool {
    match expected {
        Ok(content) => result matches Ok(submission) && submission@ == content,
        Err(message) => result matches Err(err) && err.is_refusal(message),
    }
}

impl SubmitRequest {
    /// Decodes the request's hex and base64.
    pub fn decode(&self) -> (result: Result<Submission, SubmitError>)
        ensures
            is_decoding(
                result,
                SubmissionContent::from_encoded(
                    self.device_id@,
                    self.payload@,
                    self.signature@,
                    KeyField::DeviceId,
                ),
            ),
    {
        Submission::from_encoded(
            self.device_id.as_str(),
            self.payload.as_str(),
            self.signature.as_str(),
            KeyField::DeviceId,
        )
    }
}

impl SubmitAccountRequest {
    /// Decodes the request's hex and base64.
    pub fn decode(&self) -> (result: Result<Submission, SubmitError>)
        ensures
            is_decoding(
                result,
                SubmissionContent::from_encoded(
                    self.account_pub@,
                    self.payload@,
                    self.signature@,
                    KeyField::AccountPub,
                ),
            ),
    {
        Submission::from_encoded(
            self.account_pub.as_str(),
            self.payload.as_str(),
            self.signature.as_str(),
            KeyField::AccountPub,
        )
    }
}

impl Submission {
    /// A key-package submission from raw bytes, as the protobuf wire carries
    /// them.
    pub fn keypackage(device_id: &[u8], payload: &[u8], signature: &[u8]) -> (result: Result<
        Submission,
        SubmitError,
    >)
        ensures
            is_decoding(
                result,
                SubmissionContent::from_bytes(
                    device_id@,
                    payload@,
                    signature@,
                    KeyField::DeviceId,
                ),
            ),
            result is Ok <==> device_id@.len() == 32 && signature@.len() == 64,
            result matches Ok(s) ==> s.key@ == device_id@ && s.payload@ == payload@ && s.signature@
                == signature@,
    {
        Submission::from_bytes(device_id, payload, signature, KeyField::DeviceId)
    }

    /// An account submission from raw bytes.
    pub fn account(account_pub: &[u8], payload: &[u8], signature: &[u8]) -> (result: Result<
        Submission,
        SubmitError,
    >)
        ensures
            is_decoding(
                result,
                SubmissionContent::from_bytes(
                    account_pub@,
                    payload@,
                    signature@,
                    KeyField::AccountPub,
                ),
            ),
            result is Ok <==> account_pub@.len() == 32 && signature@.len() == 64,
            result matches Ok(s) ==> s.key@ == account_pub@ && s.payload@ == payload@ && s.signature@
                == signature@,
    {
        Submission::from_bytes(account_pub, payload, signature, KeyField::AccountPub)
    }

    fn from_bytes(
        key: &[u8],
        payload: &[u8],
        signature: &[u8],
        key_field: KeyField,
    ) -> (result: Result<Submission, SubmitError>)
        ensures
            is_decoding(
                result,
                SubmissionContent::from_bytes(key@, payload@, signature@, key_field),
            ),
    {
        let key = match signing::to_array::<32>(key) {
            Some(key) => key,
            None => {
                return Err(SubmitError::Invalid(key_field.not_32_bytes()));
            },
        };
        let signature = match signing::to_array::<64>(signature) {
            Some(signature) => signature,
            None => {
                return Err(SubmitError::Invalid("signature: must be 64 bytes"));
            },
        };
        Ok(Submission { key, payload: copy_bytes(payload), signature })
    }

    fn from_encoded(
        key_hex: &str,
        payload_b64: &str,
        signature_b64: &str,
        key_field: KeyField,
    ) -> (result: Result<Submission, SubmitError>)
        ensures
            is_decoding(
                result,
                SubmissionContent::from_encoded(
                    key_hex@,
                    payload_b64@,
                    signature_b64@,
                    key_field,
                ),
            ),
    {
        let key = match encoding::hex_decode(key_hex) {
            Ok(bytes) => signing::to_array::<32>(bytes.as_slice()),
            Err(_) => None,
        };
        let key = match key {
            Some(key) => key,
            None => {
                return Err(SubmitError::Invalid(key_field.not_hex()));
            },
        };
        let payload = match encoding::base64_decode(payload_b64) {
            Ok(bytes) => bytes,
            Err(_) => {
                return Err(SubmitError::Invalid("payload: not valid base64"));
            },
        };
        proof {
            encoding::base64_round_trip(payload@);
        }
        let signature = match encoding::base64_decode(signature_b64) {
            Ok(bytes) => {
                proof {
                    encoding::base64_round_trip(bytes@);
                }
                signing::to_array::<64>(bytes.as_slice())
            },
            Err(_) => None,
        };
        let signature = match signature {
            Some(signature) => signature,
            None => {
                return Err(SubmitError::Invalid("signature: must be base64 of 64 bytes"));
            },
        };
        Ok(Submission { key, payload, signature })
    }

    /// The lowercase hex of the submission's key, which the store files it
    /// under. It is the same whichever wire and whichever casing the key arrived
    /// in.
    pub fn key_hex(&self) -> (text: String)
        ensures
            text@ == self@.name(),
    {
        encoding::hex_encode(&self.key)
    }
}

/// What verification finds, given whether the key bytes are a key and whether
/// the signature verifies under it.
pub fn judge(is_key: bool, is_signed: bool, key_field: KeyField) -> (result: Result<
    (),
    SubmitError,
>)
    ensures
        result is Ok <==> is_key && is_signed,
        !is_key ==> (result matches Err(err) && err.is_refusal(key_field.not_key_text())),
        is_key && !is_signed ==> (result matches Err(err) && err.is_refusal(
            "signature: verification failed"@,
        )),
{
    if !is_key {
        Err(SubmitError::Invalid(key_field.not_key()))
    } else if !is_signed {
        Err(SubmitError::Invalid("signature: verification failed"))
    } else {
        Ok(())
    }
}

/// Verifies proof of possession: that the signature over the payload is valid
/// under the submission's key. The payload stays opaque.
pub fn verify(submission: &Submission, key_field: KeyField) -> (result: Result<(), SubmitError>)
    ensures
        match submission@.verified(key_field) {
            Ok(_) => result is Ok,
            Err(message) => result matches Err(err) && err.is_refusal(message),
        },
        result is Ok <==> signing::is_ed25519_key(submission.key@) && signing::is_ed25519_signature(
            submission.key@,
            submission.payload@,
            submission.signature@,
        ),
{
    let is_key = signing::verifying_key(&submission.key).is_ok();
    let is_signed = is_key && signing::verify_strict(
        &submission.key,
        submission.payload.as_slice(),
        &submission.signature,
    ).is_ok();
    judge(is_key, is_signed, key_field)
}

/// Makes the row to store out of a key-package submission and the finding on it: the
/// device and its key package.
pub fn prepare_keypackage(submission: &Submission, verified: Result<(), SubmitError>) -> (result: Result<
    (String, StoredKeyPackageBundle),
    SubmitError,
>)
    ensures
        match verified {
            Ok(_) => {
                &&& result matches Ok((device_id, row))
                &&& device_id@ == submission@.name()
                &&& row@ == submission@.signed_payload()
            },
            Err(err) => result == Err::<(String, StoredKeyPackageBundle), SubmitError>(err),
        },
{
    match verified {
        Ok(_) => Ok(
            (
                submission.key_hex(),
                StoredKeyPackageBundle {
                    payload: copy_bytes(submission.payload.as_slice()),
                    signature: copy_bytes(&submission.signature),
                },
            ),
        ),
        Err(err) => Err(err),
    }
}

/// What a key-package submission is answered when storing it succeeded or
/// failed.
pub fn conclude_keypackage(stored: Result<(), String>) -> (result: Result<(), SubmitError>)
    ensures
        match stored {
            Ok(_) => result is Ok,
            Err(failure) => result matches Err(SubmitError::Internal(err)) && err@ == failure@,
        },
{
    match stored {
        Ok(_) => Ok(()),
        Err(failure) => Err(SubmitError::Internal(failure)),
    }
}

/// Stores a key-package submission if the finding on it is good.
pub fn admit_keypackage(
    store: &mut Store,
    submission: &Submission,
    verified: Result<(), SubmitError>,
) -> (result: Result<(), SubmitError>)
    ensures
        match verified {
            Ok(_) => result is Ok && exists|now: u64| #[trigger]
                clock::is_clock_reading(now) && final(store)@ == old(store)@.with_key_package(
                    submission@.name(),
                    submission@.signed_payload(),
                    now,
                ),
            Err(err) => result == Err::<(), SubmitError>(err) && final(store)@ == old(store)@,
        },
        result is Err ==> final(store)@ == old(store)@,
{
    match prepare_keypackage(submission, verified) {
        Ok((device_id, row)) => {
            store.insert(device_id.as_str(), &row);
            conclude_keypackage(Ok(()))
        },
        Err(err) => Err(err),
    }
}

/// Verifies and stores a key-package submission.
pub fn apply_keypackage(store: &mut Store, submission: &Submission) -> (result: Result<(), SubmitError>)
    ensures
        match submission@.verified(KeyField::DeviceId) {
            Ok(_) => result is Ok && exists|now: u64| #[trigger]
                clock::is_clock_reading(now) && final(store)@ == old(store)@.with_key_package(
                    submission@.name(),
                    submission@.signed_payload(),
                    now,
                ),
            Err(message) => {
                &&& result matches Err(err)
                &&& err.is_refusal(message)
                &&& final(store)@ == old(store)@
            },
        },
        result is Err ==> final(store)@ == old(store)@,
        exists|now: u64|
            final(store)@ == #[trigger] laws::after(
                old(store)@,
                (Event::KeyPackage { bundle: submission@.bundle(), now_ms: now }),
            ),
        result is Ok <==> signing::is_ed25519_key(submission.key@) && signing::is_ed25519_signature(
            submission.key@,
            submission.payload@,
            submission.signature@,
        ),
{
    let verified = verify(submission, KeyField::DeviceId);
    let result = admit_keypackage(store, submission, verified);
    proof {
        let before = old(store)@;
        let bundle = submission@.bundle();
        let now = choose|now: u64|
            store@ == #[trigger] before.with_key_package(
                bundle.name(),
                bundle.signed_payload(),
                now,
            );
        assert(store@ == laws::after(before, Event::KeyPackage { bundle, now_ms: now }));
    }
    result
}

/// Makes the row to offer to the store out of an account submission and the finding
/// on it: the account, the lamport and the bundle. The lamport can be trusted:
/// the signature covers it.
pub fn prepare_account(submission: &Submission, verified: Result<(), SubmitError>) -> (result: Result<
    (String, u64, StoredAccountBundle),
    SubmitError,
>)
    ensures
        match (verified, store::lamport_of(submission@.payload)) {
            (Ok(_), Some(expected)) => {
                &&& result matches Ok((account_pub, lamport, row))
                &&& account_pub@ == submission@.name()
                &&& lamport == expected
                &&& row@.content == submission@.signed_payload()
                &&& row@.updated_at == 0
            },
            (Ok(_), None) => result matches Err(err) && err.is_refusal(
                "payload: too short to contain a lamport header"@,
            ),
            (Err(err), _) => result == Err::<(String, u64, StoredAccountBundle), SubmitError>(err),
        },
{
    match verified {
        Ok(_) => match payload_lamport(submission.payload.as_slice()) {
            Some(lamport) => Ok(
                (
                    submission.key_hex(),
                    lamport,
                    StoredAccountBundle {
                        payload: copy_bytes(submission.payload.as_slice()),
                        signature: copy_bytes(&submission.signature),
                        updated_at: 0,
                    },
                ),
            ),
            None => Err(SubmitError::Invalid("payload: too short to contain a lamport header")),
        },
        Err(err) => Err(err),
    }
}

/// What an account submission is answered, given whether the store took it or
/// how it failed.
pub fn conclude_account(stored: Result<bool, String>) -> (result: Result<(), SubmitError>)
    ensures
        match stored {
            Ok(true) => result is Ok,
            Ok(false) => result == Err::<(), SubmitError>(SubmitError::Stale),
            Err(failure) => result matches Err(SubmitError::Internal(err)) && err@ == failure@,
        },
{
    match stored {
        Ok(true) => Ok(()),
        Ok(false) => Err(SubmitError::Stale),
        Err(failure) => Err(SubmitError::Internal(failure)),
    }
}

/// Stores an account submission if the finding on it is good and it is newer than
/// the stored bundle.
pub fn admit_account(
    store: &mut Store,
    submission: &Submission,
    verified: Result<(), SubmitError>,
) -> (result: Result<(), SubmitError>)
    ensures
        match (verified, store::lamport_of(submission@.payload)) {
            (Ok(_), Some(lamport)) => {
                &&& if old(store)@.accepts_account(submission@.name(), lamport) {
                    result is Ok
                } else {
                    result == Err::<(), SubmitError>(SubmitError::Stale)
                }
                &&& exists|now: u64| #[trigger]
                    clock::is_clock_reading(now) && final(store)@ == old(store)@.offered_account(
                        submission@.name(),
                        lamport,
                        submission@.signed_payload(),
                        now,
                    )
            },
            (Ok(_), None) => {
                &&& result matches Err(err)
                &&& err.is_refusal("payload: too short to contain a lamport header"@)
                &&& final(store)@ == old(store)@
            },
            (Err(err), _) => result == Err::<(), SubmitError>(err) && final(store)@ == old(store)@,
        },
        result is Err ==> final(store)@ == old(store)@,
{
    match prepare_account(submission, verified) {
        Ok((account_pub, lamport, row)) => {
            let stored = store.upsert_account(account_pub.as_str(), lamport, &row);
            conclude_account(Ok(stored))
        },
        Err(err) => Err(err),
    }
}

/// Verifies an account submission and stores it if it is newer than the stored
/// bundle.
pub fn apply_account(store: &mut Store, submission: &Submission) -> (result: Result<(), SubmitError>)
    ensures
        match submission@.account_lamport() {
            Ok(lamport) => {
                &&& if old(store)@.accepts_account(submission@.name(), lamport) {
                    result is Ok
                } else {
                    result == Err::<(), SubmitError>(SubmitError::Stale)
                }
                &&& exists|now: u64| #[trigger]
                    clock::is_clock_reading(now) && final(store)@ == old(store)@.offered_account(
                        submission@.name(),
                        lamport,
                        submission@.signed_payload(),
                        now,
                    )
            },
            Err(message) => {
                &&& result matches Err(err)
                &&& err.is_refusal(message)
                &&& final(store)@ == old(store)@
            },
        },
        result is Err ==> final(store)@ == old(store)@,
        exists|now: u64|
            final(store)@ == #[trigger] laws::after(
                old(store)@,
                (Event::Account { bundle: submission@.bundle(), now_ms: now }),
            ),
{
    let verified = verify(submission, KeyField::AccountPub);
    let result = admit_account(store, submission, verified);
    proof {
        let before = old(store)@;
        let bundle = submission@.bundle();
        let lamport = bundle.account_lamport()->Ok_0;
        let now = choose|now: u64|
            store@ == #[trigger] before.offered_account(
                bundle.name(),
                lamport,
                bundle.signed_payload(),
                now,
            );
        assert(store@ == laws::after(before, Event::Account { bundle, now_ms: now }));
    }
    result
}

} // verus!
