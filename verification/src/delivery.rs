//! The delivery wire that carries bundles as raw bytes.
//!
//! Publishing there is fire-and-forget: nobody is answered, so what becomes of
//! a message is only reported, as an [`Ingested`].
use vstd::prelude::*;

use crate::bundle;
use crate::bundle::{Bundle, BundleContent, BundleError};
use crate::clock;
use crate::store::Store;

verus! {

/// Content topic that carries key-package bundles.
pub const KEYPACKAGE_SUBMIT_TOPIC: &'static str = "/logos-chat/1/store-keypackage-v0/proto";

/// Content topic that carries account device-list bundles.
pub const ACCOUNT_SUBMIT_TOPIC: &'static str = "/logos-chat/1/store-account-v0/proto";

/// A message taken off the wire, its body not decoded yet.
#[derive(Debug, Clone)]
pub enum Received {
    KeyPackage(Vec<u8>),
    Account(Vec<u8>),
}

/// Sorts a message by its topic. Messages on other topics, and messages without
/// a body, are dropped.
pub fn route(topic: &str, body: Option<Vec<u8>>) -> (received: Option<Received>)
    ensures
        received == match body {
            Some(bytes) => if topic@ == KEYPACKAGE_SUBMIT_TOPIC@ {
                Some(Received::KeyPackage(bytes))
            } else if topic@ == ACCOUNT_SUBMIT_TOPIC@ {
                Some(Received::Account(bytes))
            } else {
                None
            },
            None => None,
        },
{
    let topic = topic.to_owned();
    match body {
        Some(bytes) => {
            if topic == KEYPACKAGE_SUBMIT_TOPIC.to_owned() {
                Some(Received::KeyPackage(bytes))
            } else if topic == ACCOUNT_SUBMIT_TOPIC.to_owned() {
                Some(Received::Account(bytes))
            } else {
                None
            }
        },
        None => None,
    }
}

/// The three fields of a message whose body decoded.
#[derive(Debug)]
pub struct WireBundle {
    pub key: Vec<u8>,
    pub payload: Vec<u8>,
    pub signature: Vec<u8>,
}

impl WireBundle {
    /// The bundle that the fields make up, or the message that refuses them.
    pub open spec fn content(self) -> Result<BundleContent, Seq<char>> {
        BundleContent::from_bytes(self.key@, self.payload@, self.signature@)
    }
}

/// What became of a message.
#[derive(Debug)]
pub enum Ingested {
    /// Its body did not decode.
    Undecodable,
    /// Its fields make up no bundle.
    Malformed(BundleError),
    /// The bundle of this key was refused.
    Rejected(String, BundleError),
    /// The bundle of this key was stored.
    Stored(String),
}

/// The bundle in a message, given the fields of its body, or what becomes of a
/// message without one.
pub fn read_wire(wire: Option<WireBundle>) -> (result: Result<Bundle, Ingested>)
    ensures
        match wire {
            None => result == Err::<Bundle, Ingested>(Ingested::Undecodable),
            Some(fields) => match fields.content() {
                Ok(content) => result matches Ok(bundle) && bundle@ == content,
                Err(message) => {
                    &&& result matches Err(Ingested::Malformed(err))
                    &&& err.is_refusal(message)
                },
            },
        },
{
    match wire {
        Some(fields) => match Bundle::from_bytes(
            fields.key.as_slice(),
            fields.payload.as_slice(),
            fields.signature.as_slice(),
        ) {
            Ok(bundle) => Ok(bundle),
            Err(err) => Err(Ingested::Malformed(err)),
        },
        None => Err(Ingested::Undecodable),
    }
}

/// What became of a message, given what became of its bundle.
pub fn conclude(bundle: &Bundle, applied: Result<(), BundleError>) -> (result: Ingested)
    ensures
        match applied {
            Ok(_) => result matches Ingested::Stored(key) && key@ == bundle@.name(),
            Err(err) => {
                &&& result matches Ingested::Rejected(key, cause)
                &&& key@ == bundle@.name()
                &&& cause == err
            },
        },
{
    match applied {
        Ok(_) => Ingested::Stored(bundle.key_hex()),
        Err(err) => Ingested::Rejected(bundle.key_hex(), err),
    }
}

/// Whether a message made up the bundle of this name and that bundle was refused
/// with this message.
pub open spec fn is_rejected(result: Ingested, name: Seq<char>, message: Seq<char>) -> bool {
    &&& result matches Ingested::Rejected(key, err)
    &&& key@ == name
    &&& err.is_refusal(message)
}

/// Applies a message on the key-package topic.
pub fn ingest_keypackage(store: &mut Store, wire: Option<WireBundle>) -> (result: Ingested)
    ensures
        match wire {
            None => result == Ingested::Undecodable && final(store)@ == old(store)@,
            Some(fields) => match fields.content() {
                Err(message) => {
                    &&& result matches Ingested::Malformed(err)
                    &&& err.is_refusal(message)
                    &&& final(store)@ == old(store)@
                },
                Ok(content) => match content.verified() {
                    Err(message) => {
                        &&& is_rejected(result, content.name(), message)
                        &&& final(store)@ == old(store)@
                    },
                    Ok(_) => {
                        &&& result matches Ingested::Stored(key)
                        &&& key@ == content.name()
                        &&& exists|now: u64| #[trigger]
                            clock::is_clock_reading(now) && final(store)@ == old(store)@.with_key_package(
                                content.name(),
                                content.signed_payload(),
                                now,
                            )
                    },
                },
            },
        },
        !(result is Stored) ==> final(store)@ == old(store)@,
{
    match read_wire(wire) {
        Ok(bundle) => {
            let applied = bundle::apply_keypackage(store, &bundle);
            conclude(&bundle, applied)
        },
        Err(outcome) => outcome,
    }
}

/// Applies a message on the account topic.
pub fn ingest_account(store: &mut Store, wire: Option<WireBundle>) -> (result: Ingested)
    ensures
        match wire {
            None => result == Ingested::Undecodable && final(store)@ == old(store)@,
            Some(fields) => match fields.content() {
                Err(message) => {
                    &&& result matches Ingested::Malformed(err)
                    &&& err.is_refusal(message)
                    &&& final(store)@ == old(store)@
                },
                Ok(content) => match content.account_lamport() {
                    Err(message) => {
                        &&& is_rejected(result, content.name(), message)
                        &&& final(store)@ == old(store)@
                    },
                    Ok(lamport) => {
                        &&& if old(store)@.accepts_account(content.name(), lamport) {
                            result matches Ingested::Stored(key) && key@ == content.name()
                        } else {
                            &&& result matches Ingested::Rejected(key, BundleError::Stale)
                            &&& key@ == content.name()
                        }
                        &&& exists|now: u64| #[trigger]
                            clock::is_clock_reading(now) && final(store)@ == old(store)@.offered_account(
                                content.name(),
                                lamport,
                                content.signed_payload(),
                                now,
                            )
                    },
                },
            },
        },
        !(result is Stored) ==> final(store)@ == old(store)@,
{
    match read_wire(wire) {
        Ok(bundle) => {
            let applied = bundle::apply_account(store, &bundle);
            conclude(&bundle, applied)
        },
        Err(outcome) => outcome,
    }
}

} // verus!
