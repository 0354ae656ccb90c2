//! Messages off the delivery wires.

use chat_store::bundle::{Bundle, BundleError};
use chat_store::delivery::{
    self, read_wire, route, Received, WireBundle, ACCOUNT_SUBMIT_TOPIC, KEYPACKAGE_SUBMIT_TOPIC,
};
use chat_store::ingest;
use chat_store::store::Store;
use chat_store::submit::{SubmitAccountRequest, SubmitError, SubmitRequest};

use base64::engine::general_purpose::STANDARD as BASE64;
use base64::Engine;
use ed25519_dalek::{Signer, SigningKey};

fn signing_key(seed: u8) -> SigningKey {
    SigningKey::from_bytes(&[seed; 32])
}

fn name_of(key: &SigningKey) -> String {
    hex::encode(key.verifying_key().as_bytes())
}

fn wire(key: &SigningKey, payload: &[u8]) -> WireBundle {
    WireBundle {
        key: key.verifying_key().as_bytes().to_vec(),
        payload: payload.to_vec(),
        signature: key.sign(payload).to_bytes().to_vec(),
    }
}

fn account_payload(lamport: u64) -> Vec<u8> {
    let mut payload = b"libchat:account-device-bundle\0".to_vec();
    payload.push(1u8);
    payload.extend_from_slice(&lamport.to_le_bytes());
    payload
}

fn request(key: &SigningKey, payload: &[u8]) -> SubmitRequest {
    SubmitRequest {
        device_id: name_of(key),
        payload: BASE64.encode(payload),
        signature: BASE64.encode(key.sign(payload).to_bytes()),
    }
}

fn account_request(key: &SigningKey, payload: &[u8]) -> SubmitAccountRequest {
    SubmitAccountRequest {
        account_pub: name_of(key),
        payload: BASE64.encode(payload),
        signature: BASE64.encode(key.sign(payload).to_bytes()),
    }
}

#[test]
fn messages_are_routed_by_topic() {
    assert_eq!(
        KEYPACKAGE_SUBMIT_TOPIC,
        "/logos-chat/1/store-keypackage-v0/proto"
    );
    assert_eq!(ACCOUNT_SUBMIT_TOPIC, "/logos-chat/1/store-account-v0/proto");
    assert!(matches!(
        route(KEYPACKAGE_SUBMIT_TOPIC, Some(vec![1])),
        Some(Received::KeyPackage(body)) if body == [1]
    ));
    assert!(matches!(
        route(ACCOUNT_SUBMIT_TOPIC, Some(vec![2])),
        Some(Received::Account(body)) if body == [2]
    ));
    assert!(route("/logos-chat/1/other/proto", Some(vec![3])).is_none());
    assert!(route(KEYPACKAGE_SUBMIT_TOPIC, None).is_none());
}

#[test]
fn a_key_package_off_the_byte_wire_is_stored() {
    let mut store = Store::new();
    let key = signing_key(1);
    let outcome = delivery::ingest_keypackage(&mut store, Some(wire(&key, b"payload")));
    assert!(matches!(outcome, delivery::Ingested::Stored(name) if name == name_of(&key)));
    assert_eq!(store.latest(&name_of(&key)).unwrap().payload, b"payload");
}

#[test]
fn bad_messages_off_the_byte_wire_change_nothing() {
    let mut store = Store::new();
    let key = signing_key(2);
    assert!(matches!(
        delivery::ingest_keypackage(&mut store, None),
        delivery::Ingested::Undecodable
    ));
    assert!(matches!(
        delivery::ingest_account(&mut store, None),
        delivery::Ingested::Undecodable
    ));

    let mut short = wire(&key, b"payload");
    short.key.pop();
    assert!(matches!(
        read_wire(Some(short)),
        Err(delivery::Ingested::Malformed(BundleError::Invalid("key: must be 32 bytes")))
    ));
    let mut short = wire(&key, b"payload");
    short.signature.pop();
    assert!(matches!(
        delivery::ingest_keypackage(&mut store, Some(short)),
        delivery::Ingested::Malformed(BundleError::Invalid("signature: must be 64 bytes"))
    ));

    let mut tampered = wire(&key, b"payload");
    tampered.payload = b"tampered".to_vec();
    assert!(matches!(
        delivery::ingest_keypackage(&mut store, Some(tampered)),
        delivery::Ingested::Rejected(name, BundleError::Invalid("signature: verification failed"))
            if name == name_of(&key)
    ));
    assert!(store.latest(&name_of(&key)).is_none());
}

#[test]
fn an_account_off_the_byte_wire_is_stored_once() {
    let mut store = Store::new();
    let key = signing_key(3);
    let payload = account_payload(4);
    assert!(matches!(
        delivery::ingest_account(&mut store, Some(wire(&key, &payload))),
        delivery::Ingested::Stored(name) if name == name_of(&key)
    ));
    assert!(matches!(
        delivery::ingest_account(&mut store, Some(wire(&key, &payload))),
        delivery::Ingested::Rejected(name, BundleError::Stale) if name == name_of(&key)
    ));
    assert_eq!(store.get_account(&name_of(&key)).unwrap().payload, payload);
    let bundle = Bundle::from_bytes(&[9u8; 32], b"", &[0u8; 64]).unwrap();
    assert!(matches!(
        delivery::conclude(&bundle, Ok(())),
        delivery::Ingested::Stored(name) if name == hex::encode([9u8; 32])
    ));
}

#[test]
fn a_request_off_the_text_wire_is_stored() {
    let mut store = Store::new();
    let key = signing_key(4);
    let mut fields = request(&key, b"payload");
    fields.device_id = fields.device_id.to_uppercase();
    let told = fields.device_id.clone();
    // The message is told by its own key text, and filed under the lowercase one.
    assert!(matches!(
        ingest::ingest_keypackage(&mut store, Some(fields)),
        ingest::Ingested::Stored(name) if name == told
    ));
    assert_eq!(store.latest(&name_of(&key)).unwrap().payload, b"payload");

    let payload = account_payload(1);
    assert!(matches!(
        ingest::ingest_account(&mut store, Some(account_request(&key, &payload))),
        ingest::Ingested::Stored(name) if name == name_of(&key)
    ));
    assert!(matches!(
        ingest::ingest_account(&mut store, Some(account_request(&key, &payload))),
        ingest::Ingested::Rejected(_, SubmitError::Stale)
    ));
}

#[test]
fn bad_messages_off_the_text_wire_change_nothing() {
    let mut store = Store::new();
    let key = signing_key(5);
    assert!(matches!(
        ingest::ingest_keypackage(&mut store, None),
        ingest::Ingested::Undecodable
    ));
    assert!(matches!(
        ingest::ingest_account(&mut store, None),
        ingest::Ingested::Undecodable
    ));
    let mut garbled = request(&key, b"payload");
    garbled.payload = "!".to_owned();
    assert!(matches!(
        ingest::ingest_keypackage(&mut store, Some(garbled)),
        ingest::Ingested::Rejected(name, SubmitError::Invalid("payload: not valid base64"))
            if name == name_of(&key)
    ));
    let mut forged = account_request(&key, &account_payload(1));
    forged.payload = BASE64.encode(account_payload(2));
    assert!(matches!(
        ingest::ingest_account(&mut store, Some(forged)),
        ingest::Ingested::Rejected(_, SubmitError::Invalid("signature: verification failed"))
    ));
    assert!(store.latest(&name_of(&key)).is_none());
    assert!(store.get_account(&name_of(&key)).is_none());
}

/// Whichever wire carries a bundle, the same row is filed under the same name.
#[test]
fn the_wires_file_the_same_rows() {
    let key = signing_key(6);
    let payload = account_payload(1);
    let mut bytes = Store::new();
    let mut text = Store::new();
    delivery::ingest_keypackage(&mut bytes, Some(wire(&key, &payload)));
    ingest::ingest_keypackage(&mut text, Some(request(&key, &payload)));
    delivery::ingest_account(&mut bytes, Some(wire(&key, &payload)));
    ingest::ingest_account(&mut text, Some(account_request(&key, &payload)));

    let name = name_of(&key);
    let (a, b) = (bytes.latest(&name).unwrap(), text.latest(&name).unwrap());
    assert_eq!(a.payload, b.payload);
    assert_eq!(a.signature, b.signature);
    let (a, b) = (bytes.get_account(&name).unwrap(), text.get_account(&name).unwrap());
    assert_eq!(a.payload, b.payload);
    assert_eq!(a.signature, b.signature);
}
