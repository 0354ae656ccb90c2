//! Submissions: decoding, verification and what is stored.

use chat_store::store::Store;
use chat_store::submit::{
    admit_account, admit_keypackage, apply_account, apply_keypackage, conclude_account,
    conclude_keypackage, judge, prepare_account, prepare_keypackage, verify, KeyField, Submission,
    SubmitAccountRequest, SubmitError, SubmitRequest,
};

use base64::engine::general_purpose::STANDARD as BASE64;
use base64::Engine;
use ed25519_dalek::{Signer, SigningKey};

const ACCOUNT_BUNDLE_DOMAIN: &[u8] = b"libchat:account-device-bundle\0";

fn signing_key(seed: u8) -> SigningKey {
    SigningKey::from_bytes(&[seed; 32])
}

/// The fields of a key-package submission as they arrive off the delivery wire.
struct Wire {
    device_id: Vec<u8>,
    payload: Vec<u8>,
    signature: Vec<u8>,
}

fn keypackage_submission(key: &SigningKey, payload: &[u8]) -> Wire {
    Wire {
        device_id: key.verifying_key().as_bytes().to_vec(),
        payload: payload.to_vec(),
        signature: key.sign(payload).to_bytes().to_vec(),
    }
}

/// The same submission as the HTTP POST body.
fn keypackage_submission_json(key: &SigningKey, payload: &[u8]) -> Vec<u8> {
    format!(
        "{{\"device_id\":\"{}\",\"payload\":\"{}\",\"signature\":\"{}\"}}",
        hex::encode(key.verifying_key().as_bytes()),
        BASE64.encode(payload),
        BASE64.encode(key.sign(payload).to_bytes()),
    )
    .into_bytes()
}

fn text_field(body: &serde_json::Value, name: &str) -> String {
    body.get(name).unwrap().as_str().unwrap().to_owned()
}

fn account_payload(lamport: u64) -> Vec<u8> {
    let mut p = ACCOUNT_BUNDLE_DOMAIN.to_vec();
    p.push(1u8); // version
    p.extend_from_slice(&lamport.to_le_bytes());
    p
}

fn account_submission(key: &SigningKey, payload: &[u8]) -> Submission {
    Submission::account(
        key.verifying_key().as_bytes(),
        payload,
        &key.sign(payload).to_bytes(),
    )
    .unwrap()
}

/// The byte wire and the JSON body must decode to the same submission, so the
/// store applies identical rules whichever path delivered it.
#[test]
fn submit_proto_and_json_keypackage_wires_agree() {
    let key = signing_key(1);
    let payload = b"ts-and-keypackage-bytes".to_vec();

    let wire = keypackage_submission(&key, &payload);
    let from_proto =
        Submission::keypackage(&wire.device_id, &wire.payload, &wire.signature).unwrap();

    let body: serde_json::Value =
        serde_json::from_slice(&keypackage_submission_json(&key, &payload)).unwrap();
    let body = SubmitRequest {
        device_id: text_field(&body, "device_id"),
        payload: text_field(&body, "payload"),
        signature: text_field(&body, "signature"),
    };
    let from_json = body.decode().unwrap();

    assert_eq!(from_proto.key_hex(), from_json.key_hex());
    assert_eq!(from_proto.payload, from_json.payload);
    assert_eq!(from_proto.signature, from_json.signature);
}

#[test]
fn submit_wire_proto_keypackage_is_parsed_verified_and_stored() {
    let mut store = Store::new();
    let key = signing_key(1);
    let payload = b"ts-and-keypackage-bytes".to_vec();

    let wire = keypackage_submission(&key, &payload);
    let submission =
        Submission::keypackage(&wire.device_id, &wire.payload, &wire.signature).unwrap();
    apply_keypackage(&mut store, &submission).unwrap();

    let stored = store.latest(&submission.key_hex()).unwrap();
    assert_eq!(stored.payload, payload);
}

#[test]
fn tampered_keypackage_submission_is_rejected() {
    let mut store = Store::new();
    let key = signing_key(2);

    let mut wire = keypackage_submission(&key, b"original");
    wire.payload = b"tampered".to_vec();
    let submission =
        Submission::keypackage(&wire.device_id, &wire.payload, &wire.signature).unwrap();

    let err = apply_keypackage(&mut store, &submission).unwrap_err();
    assert!(matches!(
        err,
        SubmitError::Invalid("signature: verification failed")
    ));
    assert!(store.latest(&submission.key_hex()).is_none());
}

/// A key that is not 32 bytes is rejected at decode, before verification.
#[test]
fn submit_short_key_is_rejected() {
    let err = Submission::keypackage(&[1u8; 31], b"payload", &[0u8; 64]).unwrap_err();
    assert!(matches!(
        err,
        SubmitError::Invalid("device_id: must be 32 bytes")
    ));
}

#[test]
fn account_submission_upserts_and_rejects_stale_replay() {
    let mut store = Store::new();
    let key = signing_key(3);

    apply_account(&mut store, &account_submission(&key, &account_payload(1))).unwrap();
    apply_account(&mut store, &account_submission(&key, &account_payload(2))).unwrap();

    // Replaying the lamport-2 bundle (as a delivery duplicate would) is stale.
    let err =
        apply_account(&mut store, &account_submission(&key, &account_payload(2))).unwrap_err();
    assert!(matches!(err, SubmitError::Stale));
}

#[test]
fn messages_name_the_key_field() {
    let err = Submission::account(&[1u8; 33], b"payload", &[0u8; 64]).unwrap_err();
    assert_eq!(err.to_string(), "account_pub: must be 32 bytes");
    let err = Submission::keypackage(&[1u8; 32], b"payload", &[0u8; 63]).unwrap_err();
    assert_eq!(err.to_string(), "signature: must be 64 bytes");

    let mut key = [0u8; 32];
    key[0] = 2;
    let submission = Submission::keypackage(&key, b"payload", &[0u8; 64]).unwrap();
    assert_eq!(
        verify(&submission, KeyField::DeviceId)
            .unwrap_err()
            .to_string(),
        "device_id: not a valid ed25519 key"
    );
    assert_eq!(
        verify(&submission, KeyField::AccountPub)
            .unwrap_err()
            .to_string(),
        "account_pub: not a valid ed25519 key"
    );
    let mut store = Store::new();
    assert_eq!(
        apply_account(&mut store, &submission)
            .unwrap_err()
            .to_string(),
        "account_pub: not a valid ed25519 key"
    );
}

#[test]
fn texts_that_do_not_decode_are_rejected() {
    let key = hex::encode([1u8; 32]);
    let signature = BASE64.encode([0u8; 64]);
    let decode = |device_id: &str, payload: &str, signature: &str| {
        SubmitRequest {
            device_id: device_id.to_owned(),
            payload: payload.to_owned(),
            signature: signature.to_owned(),
        }
        .decode()
    };
    let message = |device_id: &str, payload: &str, signature: &str| {
        decode(device_id, payload, signature).unwrap_err().to_string()
    };

    assert!(decode(&key, "cGF5bG9hZA==", &signature).is_ok());
    assert_eq!(
        message("zz", "", &signature),
        "device_id: must be hex of a 32-byte key"
    );
    assert_eq!(
        message(&key[2..], "", &signature),
        "device_id: must be hex of a 32-byte key"
    );
    assert_eq!(message(&key, "***", &signature), "payload: not valid base64");
    // Padding is required and trailing bits must be zero.
    assert_eq!(message(&key, "cGF5bG9hZA", &signature), "payload: not valid base64");
    assert_eq!(message(&key, "cGF5bG9hZB==", &signature), "payload: not valid base64");
    assert_eq!(
        message(&key, "", "AAAA"),
        "signature: must be base64 of 64 bytes"
    );
    assert_eq!(
        message(&key, "", "***"),
        "signature: must be base64 of 64 bytes"
    );

    let account = SubmitAccountRequest {
        account_pub: "zz".to_owned(),
        payload: String::new(),
        signature,
    };
    assert_eq!(
        account.decode().unwrap_err().to_string(),
        "account_pub: must be hex of a 32-byte key"
    );
}

#[test]
fn an_account_submission_without_a_lamport_is_rejected() {
    let mut store = Store::new();
    let submission = account_submission(&signing_key(4), b"payload");
    let err = apply_account(&mut store, &submission).unwrap_err();
    assert_eq!(
        err.to_string(),
        "payload: too short to contain a lamport header"
    );
    assert!(store.get_account(&submission.key_hex()).is_none());
}

#[test]
fn submissions_are_judged_prepared_and_concluded() {
    assert!(judge(true, true, KeyField::DeviceId).is_ok());
    assert_eq!(
        judge(true, false, KeyField::DeviceId).unwrap_err().to_string(),
        "signature: verification failed"
    );
    assert_eq!(
        judge(false, false, KeyField::AccountPub).unwrap_err().to_string(),
        "account_pub: not a valid ed25519 key"
    );

    let submission = account_submission(&signing_key(5), &account_payload(7));
    let (device_id, row) = prepare_keypackage(&submission, Ok(())).unwrap();
    assert_eq!(device_id, submission.key_hex());
    assert_eq!(row.payload, submission.payload);
    let (account_pub, lamport, row) = prepare_account(&submission, Ok(())).unwrap();
    assert_eq!(account_pub, submission.key_hex());
    assert_eq!(lamport, 7);
    assert_eq!(row.updated_at, 0);
    assert_eq!(row.payload, submission.payload);
    assert!(prepare_account(&submission, Err(SubmitError::Stale)).is_err());
    assert!(prepare_keypackage(&submission, Err(SubmitError::Stale)).is_err());

    assert!(conclude_keypackage(Ok(())).is_ok());
    assert_eq!(
        conclude_keypackage(Err("disk full".to_owned())).unwrap_err().to_string(),
        "internal: disk full"
    );
    assert!(conclude_account(Ok(true)).is_ok());
    assert!(matches!(conclude_account(Ok(false)), Err(SubmitError::Stale)));
    assert!(matches!(
        conclude_account(Err("disk full".to_owned())),
        Err(SubmitError::Internal(_))
    ));
}

#[test]
fn submissions_are_admitted_on_a_good_finding_only() {
    let mut store = Store::new();
    let submission = account_submission(&signing_key(6), &account_payload(7));
    assert!(admit_keypackage(&mut store, &submission, Err(SubmitError::Stale)).is_err());
    assert!(store.latest(&submission.key_hex()).is_none());
    assert!(admit_keypackage(&mut store, &submission, Ok(())).is_ok());
    assert!(store.latest(&submission.key_hex()).is_some());
    assert!(admit_account(&mut store, &submission, Err(SubmitError::Stale)).is_err());
    assert!(store.get_account(&submission.key_hex()).is_none());
    assert!(admit_account(&mut store, &submission, Ok(())).is_ok());
    assert!(store.get_account(&submission.key_hex()).is_some());
    assert!(admit_account(&mut store, &submission, Ok(())).is_err());
}
