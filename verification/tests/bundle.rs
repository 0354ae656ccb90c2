//! Bundles: decoding, verification and what is stored.

use chat_store::account_log::{AccountLogError, AccountLogRecord, LogFreshness, Outcome};
use chat_store::bundle::{
    admit_account, admit_keypackage, apply_account, apply_account_log, apply_keypackage,
    conclude_account, conclude_account_log, conclude_keypackage, judge, prepare_account,
    prepare_account_log, prepare_keypackage, verify, Bundle, BundleError,
};
use chat_store::delivery::WireBundle;
use chat_store::handlers::keypackage::SubmitKeyPackageRequest;
use chat_store::store::Store;

use base64::engine::general_purpose::STANDARD as BASE64;
use base64::Engine;
use ed25519_dalek::{Signature, Signer, SigningKey, VerifyingKey};

const ACCOUNT_BUNDLE_DOMAIN: &[u8] = b"libchat:account-device-bundle\0";
const LOG_DOMAIN: &[u8] = b"log:";

fn signing_key(seed: u8) -> SigningKey {
    SigningKey::from_bytes(&[seed; 32])
}

/// A key-package submission as its fields arrive off the delivery wire.
fn keypackage_submission(key: &SigningKey, payload: &[u8]) -> WireBundle {
    WireBundle {
        key: key.verifying_key().as_bytes().to_vec(),
        payload: payload.to_vec(),
        signature: key.sign(payload).to_bytes().to_vec(),
    }
}

/// The same submission as the HTTP POST body.
fn keypackage_submission_json(key: &SigningKey, payload: &[u8]) -> Vec<u8> {
    format!(
        "{{\"device_id\":\"{}\",\"payload\":\"{}\",\"signature\":\"{}\"}}",
        hex::encode(key.verifying_key().as_bytes()),
        BASE64.encode(payload),
        BASE64.encode(key.sign(payload).to_bytes()),
    )
    .into_bytes()
}

fn text_field(body: &serde_json::Value, name: &str) -> String {
    body.get(name).unwrap().as_str().unwrap().to_owned()
}

fn account_payload(lamport: u64) -> Vec<u8> {
    let mut p = ACCOUNT_BUNDLE_DOMAIN.to_vec();
    p.push(1u8); // version
    p.extend_from_slice(&lamport.to_le_bytes());
    p
}

fn account_submission(key: &SigningKey, payload: &[u8]) -> Bundle {
    Bundle::from_bytes(
        key.verifying_key().as_bytes(),
        payload,
        &key.sign(payload).to_bytes(),
    )
    .unwrap()
}

/// An account log endorsing one device key per seed, in order.
fn account_log(device_seeds: &[u8]) -> Vec<u8> {
    let mut payload = LOG_DOMAIN.to_vec();
    for &seed in device_seeds {
        payload.extend_from_slice(signing_key(seed).verifying_key().as_bytes());
    }
    payload
}

/// `payload` signed by `key`: `signature || payload`.
fn signed_log(key: &SigningKey, payload: &[u8]) -> Vec<u8> {
    let mut artifact = key.sign(payload).to_bytes().to_vec();
    artifact.extend_from_slice(payload);
    artifact
}

fn addr_of(key: &SigningKey) -> String {
    hex::encode(key.verifying_key().as_bytes())
}

/// Checks an artifact against the account it is published for.
fn checked_log(addr: &VerifyingKey, artifact: &[u8]) -> Result<AccountLogRecord, AccountLogError> {
    let (signature, payload) = artifact.split_at(64);
    let signature = Signature::from_slice(signature).unwrap();
    if addr.verify_strict(payload, &signature).is_err() {
        return Err(AccountLogError::SignatureInvalid("bad signature".to_owned()));
    }
    match payload.strip_prefix(LOG_DOMAIN) {
        Some(entries) => Ok(AccountLogRecord {
            addr: hex::encode(addr.as_bytes()),
            artifact: artifact.to_vec(),
            entries: entries.chunks(32).map(|entry| entry.to_vec()).collect(),
        }),
        None => Err(AccountLogError::Malformed("not an account log".to_owned())),
    }
}

/// The byte wire and the JSON body must decode to the same bundle, so the store
/// applies identical rules whichever path delivered it.
#[test]
fn bundle_proto_and_json_keypackage_wires_agree() {
    let key = signing_key(1);
    let payload = b"ts-and-keypackage-bytes".to_vec();

    let wire = keypackage_submission(&key, &payload);
    let from_proto = Bundle::from_bytes(&wire.key, &wire.payload, &wire.signature).unwrap();

    let body: serde_json::Value =
        serde_json::from_slice(&keypackage_submission_json(&key, &payload)).unwrap();
    let body = SubmitKeyPackageRequest {
        device_id: text_field(&body, "device_id"),
        payload: text_field(&body, "payload"),
        signature: text_field(&body, "signature"),
    };
    let from_json = body.decode().unwrap();

    assert_eq!(from_proto.key_hex(), from_json.key_hex());
    assert_eq!(from_proto.payload, from_json.payload);
    assert_eq!(from_proto.signature, from_json.signature);
}

#[test]
fn bundle_wire_proto_keypackage_is_parsed_verified_and_stored() {
    let mut store = Store::new();
    let key = signing_key(1);
    let payload = b"ts-and-keypackage-bytes".to_vec();

    let wire = keypackage_submission(&key, &payload);
    let bundle = Bundle::from_bytes(&wire.key, &wire.payload, &wire.signature).unwrap();
    apply_keypackage(&mut store, &bundle).unwrap();

    let stored = store.latest(&bundle.key_hex()).unwrap();
    assert_eq!(stored.payload, payload);
}

#[test]
fn tampered_keypackage_bundle_is_rejected() {
    let mut store = Store::new();
    let key = signing_key(2);

    let mut wire = keypackage_submission(&key, b"original");
    wire.payload = b"tampered".to_vec();
    let bundle = Bundle::from_bytes(&wire.key, &wire.payload, &wire.signature).unwrap();

    let err = apply_keypackage(&mut store, &bundle).unwrap_err();
    assert!(matches!(
        err,
        BundleError::Invalid("signature: verification failed")
    ));
    assert!(store.latest(&bundle.key_hex()).is_none());
}

/// A key that is not 32 bytes is rejected at decode, before verification.
#[test]
fn bundle_short_key_is_rejected() {
    let err = Bundle::from_bytes(&[1u8; 31], b"payload", &[0u8; 64]).unwrap_err();
    assert!(matches!(err, BundleError::Invalid("key: must be 32 bytes")));
}

#[test]
fn account_bundle_upserts_and_rejects_stale_replay() {
    let mut store = Store::new();
    let key = signing_key(3);

    apply_account(&mut store, &account_submission(&key, &account_payload(1))).unwrap();
    apply_account(&mut store, &account_submission(&key, &account_payload(2))).unwrap();

    // Replaying the lamport-2 bundle (as a delivery duplicate would) is stale.
    let err =
        apply_account(&mut store, &account_submission(&key, &account_payload(2))).unwrap_err();
    assert!(matches!(err, BundleError::Stale));
}

#[test]
fn account_log_must_extend_the_stored_one() {
    let mut store = Store::new();
    let key = signing_key(4);
    let addr = addr_of(&key);
    let artifact = |devices: &[u8]| signed_log(&key, &account_log(devices));
    let log = |devices: &[u8]| checked_log(&key.verifying_key(), &artifact(devices));

    // The empty log is valid: an account that has endorsed nothing yet.
    apply_account_log(&mut store, log(&[])).unwrap();
    apply_account_log(&mut store, log(&[1])).unwrap();
    // Resubmitting the stored log (a retried publish) is accepted.
    apply_account_log(&mut store, log(&[1])).unwrap();
    apply_account_log(&mut store, log(&[1, 2])).unwrap();

    let err = apply_account_log(&mut store, log(&[1])).unwrap_err();
    assert!(matches!(err, BundleError::Stale));
    let err = apply_account_log(&mut store, log(&[3, 2, 1])).unwrap_err();
    assert!(matches!(err, BundleError::Forked));

    // Neither refusal touched the stored log: it is the last one accepted,
    // served back as the artifact it was published as.
    let stored = store.get_account_log(&addr).unwrap();
    assert_eq!(stored, artifact(&[1, 2]));
    let never_published = addr_of(&signing_key(7));
    assert!(store.get_account_log(&never_published).is_none());
}

#[test]
fn account_log_must_be_authentic_and_well_formed() {
    let mut store = Store::new();
    let key = signing_key(5);

    // Signed by another key: refused on the signature.
    let forged = signed_log(&signing_key(6), &account_log(&[1]));
    let err =
        apply_account_log(&mut store, checked_log(&key.verifying_key(), &forged)).unwrap_err();
    assert!(matches!(
        err,
        BundleError::Invalid("signature: verification failed")
    ));

    // Authentic, but a v0 device-list bundle rather than an account log.
    let v0_bundle = signed_log(&key, &account_payload(1));
    let err =
        apply_account_log(&mut store, checked_log(&key.verifying_key(), &v0_bundle)).unwrap_err();
    assert!(matches!(
        err,
        BundleError::MalformedLog(AccountLogError::Malformed(_))
    ));
    assert!(store.get_account_log(&addr_of(&key)).is_none());
}

#[test]
fn signature_of_another_length_is_rejected() {
    for len in [0usize, 63, 65] {
        let err = Bundle::from_bytes(&[1u8; 32], b"payload", &vec![0u8; len]).unwrap_err();
        assert!(matches!(
            err,
            BundleError::Invalid("signature: must be 64 bytes")
        ));
    }
}

#[test]
fn bytes_that_are_no_point_are_no_key() {
    // 2 is the y coordinate of no point of the curve.
    let mut key = [0u8; 32];
    key[0] = 2;
    let bundle = Bundle::from_bytes(&key, b"payload", &[0u8; 64]).unwrap();
    let err = verify(&bundle).unwrap_err();
    assert!(matches!(
        err,
        BundleError::Invalid("key: not a valid ed25519 key")
    ));

    let mut store = Store::new();
    assert!(apply_keypackage(&mut store, &bundle).is_err());
    assert!(apply_account(&mut store, &bundle).is_err());
    assert!(store.latest(&bundle.key_hex()).is_none());
    assert!(store.get_account(&bundle.key_hex()).is_none());
}

#[test]
fn every_signed_payload_verifies_only_under_its_key() {
    for seed in 1u8..5 {
        let bundle = account_submission(&signing_key(seed), b"anything");
        assert!(verify(&bundle).is_ok());
        let mut stolen = account_submission(&signing_key(seed), b"anything");
        stolen.key = signing_key(seed + 1).verifying_key().to_bytes();
        assert_eq!(
            verify(&stolen).unwrap_err().to_string(),
            "signature: verification failed"
        );
    }
}

#[test]
fn key_hex_is_lowercase_hex_of_the_key() {
    let mut key = [0u8; 32];
    key[0] = 0xab;
    key[31] = 0x0f;
    let bundle = Bundle::from_bytes(&key, b"", &[0u8; 64]).unwrap();
    assert_eq!(
        bundle.key_hex(),
        "ab0000000000000000000000000000000000000000000000000000000000000f"
    );
}

#[test]
fn an_account_payload_without_a_lamport_is_rejected() {
    let mut store = Store::new();
    let key = signing_key(8);
    let bundle = account_submission(&key, b"ts-and-keypackage-bytes");
    let err = apply_account(&mut store, &bundle).unwrap_err();
    assert!(matches!(
        err,
        BundleError::Invalid("payload: too short to contain a lamport header")
    ));
    assert!(store.get_account(&bundle.key_hex()).is_none());
}

#[test]
fn judging_reports_the_key_before_the_signature() {
    assert!(judge(true, true).is_ok());
    assert_eq!(
        judge(false, false).unwrap_err().to_string(),
        "key: not a valid ed25519 key"
    );
    assert_eq!(
        judge(false, true).unwrap_err().to_string(),
        "key: not a valid ed25519 key"
    );
    assert_eq!(
        judge(true, false).unwrap_err().to_string(),
        "signature: verification failed"
    );
}

#[test]
fn preparing_makes_the_row_to_store() {
    let key = signing_key(9);
    let payload = account_payload(0x0102_0304_0506_0708);
    let bundle = account_submission(&key, &payload);

    let (device_id, row) = prepare_keypackage(&bundle, Ok(())).unwrap();
    assert_eq!(device_id, bundle.key_hex());
    assert_eq!(row.payload, payload);
    assert_eq!(row.signature, bundle.signature.to_vec());

    let (account_pub, lamport, row) = prepare_account(&bundle, Ok(())).unwrap();
    assert_eq!(account_pub, bundle.key_hex());
    assert_eq!(lamport, 0x0102_0304_0506_0708);
    assert_eq!(row.updated_at, 0);
    assert_eq!(row.payload, payload);
    assert_eq!(row.signature, bundle.signature.to_vec());

    assert!(matches!(
        prepare_keypackage(&bundle, Err(BundleError::Forked)),
        Err(BundleError::Forked)
    ));
    assert!(matches!(
        prepare_account(&bundle, Err(BundleError::Forked)),
        Err(BundleError::Forked)
    ));
}

#[test]
fn admitting_follows_the_finding() {
    let mut store = Store::new();
    let key = signing_key(10);
    let bundle = account_submission(&key, &account_payload(3));

    let refused = Err(BundleError::Invalid("signature: verification failed"));
    assert!(admit_keypackage(&mut store, &bundle, refused).is_err());
    assert!(store.latest(&bundle.key_hex()).is_none());
    admit_keypackage(&mut store, &bundle, Ok(())).unwrap();
    assert_eq!(
        store.latest(&bundle.key_hex()).unwrap().payload,
        bundle.payload
    );

    let refused = Err(BundleError::Invalid("signature: verification failed"));
    assert!(admit_account(&mut store, &bundle, refused).is_err());
    assert!(store.get_account(&bundle.key_hex()).is_none());
    admit_account(&mut store, &bundle, Ok(())).unwrap();
    assert_eq!(
        store.get_account(&bundle.key_hex()).unwrap().payload,
        bundle.payload
    );
    assert!(matches!(
        admit_account(&mut store, &bundle, Ok(())),
        Err(BundleError::Stale)
    ));
}

#[test]
fn concluding_says_what_the_store_said() {
    assert!(conclude_keypackage(Ok(())).is_ok());
    assert!(matches!(
        conclude_keypackage(Err("disk full".to_owned())),
        Err(BundleError::Internal(cause)) if cause == "disk full"
    ));
    assert!(conclude_account(Ok(true)).is_ok());
    assert!(matches!(
        conclude_account(Ok(false)),
        Err(BundleError::Stale)
    ));
    assert!(matches!(
        conclude_account(Err("disk full".to_owned())),
        Err(BundleError::Internal(cause)) if cause == "disk full"
    ));
    assert!(conclude_account_log(Ok(Outcome::Updated)).is_ok());
    assert!(conclude_account_log(Ok(Outcome::Unchanged(LogFreshness::Identical))).is_ok());
    assert!(matches!(
        conclude_account_log(Ok(Outcome::Unchanged(LogFreshness::Behind))),
        Err(BundleError::Stale)
    ));
    assert!(matches!(
        conclude_account_log(Ok(Outcome::Unchanged(LogFreshness::Diverged))),
        Err(BundleError::Forked)
    ));
    assert_eq!(
        conclude_account_log(Ok(Outcome::Unchanged(LogFreshness::Ahead)))
            .unwrap_err()
            .to_string(),
        "internal: unexpected account log outcome: Unchanged(Ahead)"
    );
    assert!(matches!(
        conclude_account_log(Err("disk full".to_owned())),
        Err(BundleError::Internal(cause)) if cause == "disk full"
    ));
}

#[test]
fn a_log_that_breaks_a_rule_is_malformed() {
    let broken = Err(AccountLogError::RuleBroken("duplicate entry".to_owned()));
    let err = prepare_account_log(broken).unwrap_err();
    assert!(matches!(
        err,
        BundleError::MalformedLog(AccountLogError::RuleBroken(_))
    ));
    let forged = Err(AccountLogError::SignatureInvalid("bad signature".to_owned()));
    assert_eq!(
        prepare_account_log(forged).unwrap_err().to_string(),
        "signature: verification failed"
    );
}
