//! The HTTP answers.

use chat_store::account_log::{AccountLogError, AccountLogRecord};
use chat_store::bundle::BundleError;
use chat_store::encoding::fits_base64;
use chat_store::handlers::account::{v0, v1};
use chat_store::handlers::keypackage::{
    fetch_answer, fetch_key_package, submit_key_package, SubmitKeyPackageRequest,
};
use chat_store::handlers::{
    answer_bundle, answer_submission, decode_bundle, file_name, ApiError, BAD_REQUEST, CONFLICT,
    INTERNAL_SERVER_ERROR, NOT_FOUND, NO_CONTENT,
};
use chat_store::store::{Store, StoredAccountBundle, StoredKeyPackageBundle};
use chat_store::submit::{SubmitAccountRequest, SubmitError};

use base64::engine::general_purpose::STANDARD as BASE64;
use base64::Engine;
use ed25519_dalek::{Signer, SigningKey};

fn signing_key(seed: u8) -> SigningKey {
    SigningKey::from_bytes(&[seed; 32])
}

fn request(key: &SigningKey, payload: &[u8]) -> SubmitKeyPackageRequest {
    SubmitKeyPackageRequest {
        device_id: hex::encode(key.verifying_key().as_bytes()),
        payload: BASE64.encode(payload),
        signature: BASE64.encode(key.sign(payload).to_bytes()),
    }
}

fn account_request(key: &SigningKey, lamport: u64) -> SubmitAccountRequest {
    let mut payload = b"libchat:account-device-bundle\0".to_vec();
    payload.push(1u8);
    payload.extend_from_slice(&lamport.to_le_bytes());
    SubmitAccountRequest {
        account_pub: hex::encode(key.verifying_key().as_bytes()),
        payload: BASE64.encode(&payload),
        signature: BASE64.encode(key.sign(&payload).to_bytes()),
    }
}

fn log(addr: &str, entries: &[&[u8]]) -> v1::LogSubmission {
    v1::LogSubmission::Read(Ok(AccountLogRecord {
        addr: addr.to_owned(),
        artifact: entries.concat(),
        entries: entries.iter().map(|entry| entry.to_vec()).collect(),
    }))
}

#[test]
fn statuses_are_those_of_http() {
    assert_eq!(NO_CONTENT, 204);
    assert_eq!(BAD_REQUEST, 400);
    assert_eq!(NOT_FOUND, 404);
    assert_eq!(CONFLICT, 409);
    assert_eq!(INTERNAL_SERVER_ERROR, 500);
}

#[test]
fn a_published_key_package_is_served_letter_for_letter() {
    let mut store = Store::new();
    let key = signing_key(1);
    let published = request(&key, b"ts-and-keypackage-bytes");

    assert_eq!(submit_key_package(&mut store, &published).unwrap(), 204);
    let served = fetch_key_package(&store, &published.device_id).unwrap();
    assert_eq!(served.payload, published.payload);
    assert_eq!(served.payload, "dHMtYW5kLWtleXBhY2thZ2UtYnl0ZXM=");
    assert_eq!(served.signature, published.signature);
}

#[test]
fn the_casing_of_the_key_does_not_matter() {
    let mut store = Store::new();
    let key = signing_key(2);
    let mut published = request(&key, b"payload");
    let lowercase = published.device_id.clone();
    published.device_id = lowercase.to_uppercase();
    assert_ne!(published.device_id, lowercase);

    assert_eq!(submit_key_package(&mut store, &published).unwrap(), 204);
    for device_id in [&published.device_id, &lowercase] {
        let served = fetch_key_package(&store, device_id).unwrap();
        assert_eq!(served.payload, published.payload);
        assert_eq!(served.signature, published.signature);
    }
    assert_eq!(published.decode().unwrap().key_hex(), lowercase);

    let mut account = account_request(&key, 1);
    account.account_pub = lowercase.to_uppercase();
    assert_eq!(v0::submit_account(&mut store, &account).unwrap(), 204);
    for account_pub in [&account.account_pub, &lowercase] {
        let served = v0::fetch_account(&store, account_pub).unwrap();
        assert_eq!(served.payload, account.payload);
        assert_eq!(served.signature, account.signature);
    }
}

#[test]
fn names_are_the_lowercase_hex_of_whole_keys() {
    let lowercase = "ab".repeat(32);
    assert_eq!(file_name(&"Ab".repeat(32)), lowercase);
    assert_eq!(file_name(&lowercase), lowercase);
    // What is no key stands for itself.
    assert_eq!(file_name("AB"), "AB");
    assert_eq!(file_name("Not Hex"), "Not Hex");
    assert_eq!(file_name(""), "");
}

#[test]
fn the_latest_of_several_submissions_is_served() {
    let mut store = Store::new();
    let key = signing_key(5);
    for payload in [&b"one"[..], b"two", b"three"] {
        let published = request(&key, payload);
        assert_eq!(submit_key_package(&mut store, &published).unwrap(), 204);
        let served = fetch_key_package(&store, &published.device_id).unwrap();
        assert_eq!(served.payload, published.payload);
        assert_eq!(served.signature, published.signature);
    }
    let other = request(&signing_key(6), b"");
    let answer = fetch_key_package(&store, &other.device_id).unwrap_err();
    assert_eq!(answer.status, 404);
    assert_eq!(answer.message, "no keypackage for device");
}

#[test]
fn nothing_is_served_where_nothing_was_published() {
    let store = Store::new();
    let answer = fetch_key_package(&store, "00").unwrap_err();
    assert_eq!(answer.status, 404);
    assert_eq!(answer.message, "no keypackage for device");
    let answer = v0::fetch_account(&store, "00").unwrap_err();
    assert_eq!(answer.status, 404);
}

#[test]
fn a_key_package_that_fails_verification_is_a_bad_request() {
    let mut store = Store::new();
    let key = signing_key(3);
    let mut tampered = request(&key, b"original");
    tampered.payload = BASE64.encode(b"tampered");
    let answer = submit_key_package(&mut store, &tampered).unwrap_err();
    assert_eq!(answer.status, 400);
    assert_eq!(answer.message, "signature: verification failed");
    assert!(fetch_key_package(&store, &tampered.device_id).is_err());
}

#[test]
fn bundles_in_text_that_do_not_decode_are_rejected() {
    let key = hex::encode([1u8; 32]);
    let signature = BASE64.encode([0u8; 64]);
    let message = |key: &str, payload: &str, signature: &str| {
        decode_bundle(key, payload, signature).unwrap_err().to_string()
    };
    assert_eq!(message("0", "", &signature), "key: must be hex");
    assert_eq!(message("0g", "", &signature), "key: must be hex");
    assert_eq!(message(&key, "A", &signature), "payload: not valid base64");
    assert_eq!(message(&key, "", "-_=="), "signature: not valid base64");
    assert_eq!(message("00", "", &signature), "key: must be 32 bytes");
    assert_eq!(message(&key, "", "AAAA"), "signature: must be 64 bytes");

    let bundle = decode_bundle(&key, "AAEC", &signature).unwrap();
    assert_eq!(bundle.key, [1u8; 32]);
    assert_eq!(bundle.payload, vec![0, 1, 2]);
    assert_eq!(bundle.signature, [0u8; 64]);
}

#[test]
fn an_account_bundle_is_published_and_served() {
    let mut store = Store::new();
    let key = signing_key(4);
    let first = account_request(&key, 1);
    assert_eq!(v0::submit_account(&mut store, &first).unwrap(), 204);
    let newer = account_request(&key, 2);
    assert_eq!(v0::submit_account(&mut store, &newer).unwrap(), 204);

    let stale = v0::submit_account(&mut store, &first).unwrap_err();
    assert_eq!(stale.status, 409);
    assert_eq!(
        stale.message,
        "stale bundle: lamport is not newer than the stored one"
    );

    let served = v0::fetch_account(&store, &newer.account_pub).unwrap();
    assert_eq!(served.payload, newer.payload);
    assert_eq!(served.signature, newer.signature);
    assert!(served.updated_at > 0);

    let mut forged = account_request(&key, 3);
    forged.signature = first.signature.clone();
    let answer = v0::submit_account(&mut store, &forged).unwrap_err();
    assert_eq!(answer.status, 400);
    assert_eq!(answer.message, "signature: verification failed");
    let mut garbled = account_request(&key, 3);
    garbled.account_pub = "xx".to_owned();
    let answer = v0::submit_account(&mut store, &garbled).unwrap_err();
    assert_eq!(answer.status, 400);
    assert_eq!(answer.message, "account_pub: must be hex of a 32-byte key");
}

#[test]
fn a_log_is_published_only_if_it_extends_the_stored_one() {
    let mut store = Store::new();
    assert_eq!(v1::submit_account(&mut store, log("a", &[])).unwrap(), 204);
    assert_eq!(v1::submit_account(&mut store, log("a", &[b"x"])).unwrap(), 204);
    assert_eq!(v1::submit_account(&mut store, log("a", &[b"x"])).unwrap(), 204);

    let stale = v1::submit_account(&mut store, log("a", &[])).unwrap_err();
    assert_eq!(stale.status, 409);
    assert_eq!(stale.message, "stale bundle: not newer than the stored one");
    let forked = v1::submit_account(&mut store, log("a", &[b"y"])).unwrap_err();
    assert_eq!(forked.status, 409);
    assert_eq!(forked.message, "forked log: does not extend the stored one");
    assert_eq!(store.get_account_log("a").unwrap(), b"x");
}

#[test]
fn a_log_that_cannot_be_read_is_a_bad_request() {
    let mut store = Store::new();
    let answer = v1::submit_account(&mut store, v1::LogSubmission::UnknownAddress).unwrap_err();
    assert_eq!(answer.status, 400);
    assert_eq!(answer.message, "account_addr: not a valid account address");

    let unreadable =
        v1::LogSubmission::Unreadable(AccountLogError::Malformed("too short".to_owned()));
    let answer = v1::submit_account(&mut store, unreadable).unwrap_err();
    assert_eq!(answer.status, 400);
    assert_eq!(answer.message, "too short");

    let forged = v1::LogSubmission::Read(Err(AccountLogError::SignatureInvalid(
        "bad signature".to_owned(),
    )));
    let answer = v1::submit_account(&mut store, forged).unwrap_err();
    assert_eq!(answer.status, 400);
    assert_eq!(answer.message, "signature: verification failed");
}

#[test]
fn errors_are_answered_by_their_kind() {
    assert_eq!(answer_bundle(Ok(())).unwrap(), 204);
    assert_eq!(answer_submission(Ok(())).unwrap(), 204);
    let status = |err: BundleError| ApiError::from(err).status;
    assert_eq!(status(BundleError::Invalid("key: must be hex")), 400);
    assert_eq!(status(BundleError::Stale), 409);
    assert_eq!(status(BundleError::Forked), 409);

    // The cause of an internal error is not told.
    let answer = answer_bundle(Err(BundleError::Internal("disk full".to_owned()))).unwrap_err();
    assert_eq!(answer.status, 500);
    assert_eq!(answer.message, "internal error");
    let answer =
        answer_submission(Err(SubmitError::Internal("disk full".to_owned()))).unwrap_err();
    assert_eq!(answer.status, 500);
    assert_eq!(answer.message, "internal error");
    assert_eq!(ApiError::internal().status, 500);
    assert_eq!(ApiError::not_found("gone").message, "gone");

    assert_eq!(
        ApiError::from_submission(SubmitError::Invalid("payload: not valid base64")).status,
        400
    );
    assert_eq!(ApiError::from_submission(SubmitError::Stale).status, 409);
}

#[test]
fn rows_are_served_in_base64() {
    let row = StoredKeyPackageBundle {
        payload: vec![0xfb, 0xff],
        signature: vec![0],
    };
    let served = fetch_answer(Some(row)).unwrap();
    assert_eq!(served.payload, "+/8=");
    assert_eq!(served.signature, "AA==");
    assert_eq!(fetch_answer(None).unwrap_err().status, 404);

    let row = StoredAccountBundle {
        payload: b"abc".to_vec(),
        signature: Vec::new(),
        updated_at: -7,
    };
    let served = v0::fetch_answer(Some(row)).unwrap();
    assert_eq!(served.payload, "YWJj");
    assert_eq!(served.signature, "");
    assert_eq!(served.updated_at, -7);
    assert_eq!(v0::fetch_answer(None).unwrap_err().status, 404);
}

#[test]
fn what_fits_into_a_string_is_known_beforehand() {
    assert!(fits_base64(0));
    assert!(fits_base64(64));
    let groups = isize::MAX as usize / 4;
    assert!(fits_base64(3 * groups));
    assert!(!fits_base64(3 * groups + 1));
    assert!(!fits_base64(usize::MAX));
}
