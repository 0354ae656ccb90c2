//! The delivery wire that carries submissions as text requests.
//!
//! It uses the topics of [`crate::delivery`], with the request that the HTTP
//! endpoints take as the body of a message.
use vstd::prelude::*;

use crate::clock;
use crate::store::Store;
use crate::submit;
use crate::submit::{
    KeyField, SubmissionContent, SubmitAccountRequest, SubmitError, SubmitRequest,
};

verus! {

/// What became of a message.
#[derive(Debug)]
pub enum Ingested {
    /// Its body is no request.
    Undecodable,
    /// The request with this key text was refused.
    Rejected(String, SubmitError),
    /// The request with this key text was stored.
    Stored(String),
}

/// What became of the message that named its key `key`, given what became of
/// its submission.
pub fn conclude(key: String, applied: Result<(), SubmitError>) -> (result: Ingested)
    ensures
        result == match applied {
            Ok(_) => Ingested::Stored(key),
            Err(err) => Ingested::Rejected(key, err),
        },
{
    match applied {
        Ok(_) => Ingested::Stored(key),
        Err(err) => Ingested::Rejected(key, err),
    }
}

/// Whether the message that named its key `name` was refused with this message.
pub open spec fn is_rejected(result: Ingested, name: Seq<char>, message: Seq<char>) -> bool {
    &&& result matches Ingested::Rejected(key, err)
    &&& key@ == name
    &&& err.is_refusal(message)
}

/// Applies a message on the key-package topic.
pub fn ingest_keypackage(store: &mut Store, request: Option<SubmitRequest>) -> (result: Ingested)
    ensures
        match request {
            None => result == Ingested::Undecodable && final(store)@ == old(store)@,
            Some(fields) => match SubmissionContent::from_encoded(
                fields.device_id@,
                fields.payload@,
                fields.signature@,
                KeyField::DeviceId,
            ) {
                Err(message) => {
                    &&& is_rejected(result, fields.device_id@, message)
                    &&& final(store)@ == old(store)@
                },
                Ok(content) => match content.verified(KeyField::DeviceId) {
                    Err(message) => {
                        &&& is_rejected(result, fields.device_id@, message)
                        &&& final(store)@ == old(store)@
                    },
                    Ok(_) => {
                        &&& result == Ingested::Stored(fields.device_id)
                        &&& exists|now: u64| #[trigger]
                            clock::is_clock_reading(now) && final(store)@ == old(store)@.with_key_package(
                                content.name(),
                                content.signed_payload(),
                                now,
                            )
                    },
                },
            },
        },
        !(result is Stored) ==> final(store)@ == old(store)@,
{
    match request {
        Some(fields) => {
            let applied = match fields.decode() {
                Ok(submission) => submit::apply_keypackage(store, &submission),
                Err(err) => Err(err),
            };
            conclude(fields.device_id, applied)
        },
        None => Ingested::Undecodable,
    }
}

/// Applies a message on the account topic.
pub fn ingest_account(store: &mut Store, request: Option<SubmitAccountRequest>) -> (result:
    Ingested)
    ensures
        match request {
            None => result == Ingested::Undecodable && final(store)@ == old(store)@,
            Some(fields) => match SubmissionContent::from_encoded(
                fields.account_pub@,
                fields.payload@,
                fields.signature@,
                KeyField::AccountPub,
            ) {
                Err(message) => {
                    &&& is_rejected(result, fields.account_pub@, message)
                    &&& final(store)@ == old(store)@
                },
                Ok(content) => match content.account_lamport() {
                    Err(message) => {
                        &&& is_rejected(result, fields.account_pub@, message)
                        &&& final(store)@ == old(store)@
                    },
                    Ok(lamport) => {
                        &&& result == if old(store)@.accepts_account(content.name(), lamport) {
                            Ingested::Stored(fields.account_pub)
                        } else {
                            Ingested::Rejected(fields.account_pub, SubmitError::Stale)
                        }
                        &&& exists|now: u64| #[trigger]
                            clock::is_clock_reading(now) && final(store)@ == old(store)@.offered_account(
                                content.name(),
                                lamport,
                                content.signed_payload(),
                                now,
                            )
                    },
                },
            },
        },
        !(result is Stored) ==> final(store)@ == old(store)@,
{
    match request {
        Some(fields) => {
            let applied = match fields.decode() {
                Ok(submission) => submit::apply_account(store, &submission),
                Err(err) => Err(err),
            };
            conclude(fields.account_pub, applied)
        },
        None => Ingested::Undecodable,
    }
}

} // verus!
