//! Ed25519 proof of possession.
use vstd::prelude::*;

use ed25519_dalek::{Signature, SignatureError, VerifyingKey};

verus! {

/// A decoded Ed25519 verifying key.
#[verifier::external_type_specification]
#[verifier::external_body]
pub struct ExVerifyingKey(ed25519_dalek::VerifyingKey);

/// Why a key or a signature was turned down.
#[verifier::external_type_specification]
#[verifier::external_body]
pub struct ExSignatureError(ed25519_dalek::SignatureError);

/// Whether 32 bytes are an Ed25519 verifying key: what
/// `VerifyingKey::from_bytes` finds.
pub uninterp spec fn is_ed25519_key(key: Seq<u8>) -> bool;

/// Whether 64 bytes are a signature over `message` under `key`: what
/// `VerifyingKey::verify_strict` finds.
pub uninterp spec fn is_ed25519_signature(
    key: Seq<u8>,
    message: Seq<u8>,
    signature: Seq<u8>,
) -> bool;

/// The bytes as an array, if there are exactly `N`.
pub(crate) fn to_array<const N: usize>(bytes: &[u8]) -> (array: Option<[u8; N]>)
    ensures
        match array {
            Some(a) => a@ == bytes@,
            None => bytes@.len() != N,
        },
{
    if bytes.len() != N {
        return None;
    }
    let mut array: [u8; N] = [0u8; N];
    let mut i: usize = 0;
    while i < N
        invariant
            i <= N,
            bytes@.len() == N,
            forall|j: int| 0 <= j < i ==> array@[j] == bytes@[j],
        decreases N - i,
    {
        array[i] = bytes[i];
        i = i + 1;
    }
    assert(array@ =~= bytes@);
    Some(array)
}

/// Calls `VerifyingKey::from_bytes`, which decompresses the curve point;
/// claimed is that whether it succeeds depends on the key bytes alone.
#[verifier::external_body]
pub(crate) fn verifying_key(key: &[u8; 32]) -> (decoded: Result<VerifyingKey, SignatureError>)
    ensures
        decoded is Ok <==> is_ed25519_key(key@),
{
    VerifyingKey::from_bytes(key)
}

/// Calls `VerifyingKey::verify_strict` under the key that the bytes decode to;
/// claimed is that whether it succeeds depends on key, message and signature
/// bytes alone, and that it never succeeds under bytes that are no key.
#[verifier::external_body]
pub(crate) fn verify_strict(key: &[u8; 32], message: &[u8], signature: &[u8; 64]) -> (verified:
    Result<(), SignatureError>)
    ensures
        verified is Ok <==> is_ed25519_signature(key@, message@, signature@),
        verified is Ok ==> is_ed25519_key(key@),
{
    VerifyingKey::from_bytes(key)?.verify_strict(message, &Signature::from_bytes(signature))
}

} // verus!
