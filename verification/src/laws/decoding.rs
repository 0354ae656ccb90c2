//! What decoding and verification are for: which inputs they take, and that what
//! comes out is what went in.
use vstd::prelude::*;

use crate::bundle;
use crate::bundle::{Bundle, BundleContent, BundleError};
use crate::delivery::WireBundle;
use crate::encoding;
use crate::handlers;
use crate::signing;
use crate::store;
use crate::submit;
use crate::submit::{KeyField, Submission, SubmissionContent, SubmitError};

verus! {

// ---- bytes -------------------------------------------------------------------

/// The contents of a bundle are its bytes, all of them.
pub proof fn a_bundle_is_its_bytes(bundle: Bundle)
    ensures
        bundle@.key == bundle.key@,
        bundle@.payload == bundle.payload@,
        bundle@.signature == bundle.signature@,
{
}

/// The contents of a submission are its bytes, all of them.
pub proof fn a_submission_is_its_bytes(submission: Submission)
    ensures
        submission@.key == submission.key@,
        submission@.payload == submission.payload@,
        submission@.signature == submission.signature@,
        submission@.bundle().key == submission.key@,
        submission@.bundle().payload == submission.payload@,
        submission@.bundle().signature == submission.signature@,
{
}

/// Only the lengths of key and signature refuse a bundle of raw bytes, the key
/// first; the payload, however long, never does. What is not refused holds the
/// very bytes.
pub proof fn raw_bundles_are_refused_by_length_alone(
    result: Result<Bundle, BundleError>,
    key: Seq<u8>,
    payload: Seq<u8>,
    signature: Seq<u8>,
)
    requires
        bundle::is_decoding(result, BundleContent::from_bytes(key, payload, signature)),
    ensures
        result is Ok <==> key.len() == 32 && signature.len() == 64,
        result matches Ok(b) ==> b.key@ == key && b.payload@ == payload && b.signature@
            == signature,
        key.len() != 32 ==> (result matches Err(BundleError::Invalid(message)) && message@
            == "key: must be 32 bytes"@),
        key.len() == 32 && signature.len() != 64 ==> (result matches Err(
            BundleError::Invalid(message),
        ) && message@ == "signature: must be 64 bytes"@),
{
}

/// Only the lengths of key and signature refuse a submission of raw bytes, the
/// key first; the payload, however long, never does. What is not refused holds
/// the very bytes.
pub proof fn raw_submissions_are_refused_by_length_alone(
    result: Result<Submission, SubmitError>,
    key: Seq<u8>,
    payload: Seq<u8>,
    signature: Seq<u8>,
    field: KeyField,
)
    requires
        submit::is_decoding(
            result,
            SubmissionContent::from_bytes(key, payload, signature, field),
        ),
    ensures
        result is Ok <==> key.len() == 32 && signature.len() == 64,
        result matches Ok(s) ==> s.key@ == key && s.payload@ == payload && s.signature@
            == signature,
        key.len() != 32 ==> (result matches Err(SubmitError::Invalid(message)) && message@
            == match field {
            KeyField::DeviceId => "device_id: must be 32 bytes"@,
            KeyField::AccountPub => "account_pub: must be 32 bytes"@,
        }),
        key.len() == 32 && signature.len() != 64 ==> (result matches Err(
            SubmitError::Invalid(message),
        ) && message@ == "signature: must be 64 bytes"@),
{
}

/// A message off the byte wire makes up a bundle exactly if its key has 32 bytes
/// and its signature 64, and the bundle holds the message's bytes.
pub proof fn a_message_makes_up_its_own_bundle(wire: WireBundle)
    ensures
        wire.content() is Ok <==> wire.key@.len() == 32 && wire.signature@.len() == 64,
        wire.content() matches Ok(content) ==> content.key == wire.key@ && content.payload
            == wire.payload@ && content.signature == wire.signature@,
        wire.key@.len() != 32 ==> wire.content() == Err::<BundleContent, Seq<char>>(
            "key: must be 32 bytes"@,
        ),
        wire.key@.len() == 32 && wire.signature@.len() != 64 ==> wire.content() == Err::<
            BundleContent,
            Seq<char>,
        >("signature: must be 64 bytes"@),
{
}

// ---- text --------------------------------------------------------------------

/// A text is the base64 of some bytes exactly if it has a value, and then it is
/// the base64 of its value.
proof fn lemma_base64_value(text: Seq<char>)
    ensures
        encoding::base64_value(text) is Some <==> exists|bytes: Seq<u8>|
            text == #[trigger] encoding::base64_text(bytes),
        encoding::base64_value(text) matches Some(value) ==> encoding::base64_text(value) == text,
{
}

/// Every hex text of a 32-byte key, base64 text of a payload of any length and
/// base64 text of a 64-byte signature make up a bundle, nothing else does, and
/// the bundle holds the bytes that the texts spell. Of several faults the first
/// in the order key, payload, signature, lengths is reported.
pub proof fn bundles_in_text_are_taken_by_what_they_spell(
    result: Result<Bundle, BundleError>,
    key_hex: Seq<char>,
    payload_b64: Seq<char>,
    signature_b64: Seq<char>,
)
    requires
        bundle::is_decoding(
            result,
            handlers::decoded_bundle(key_hex, payload_b64, signature_b64),
        ),
    ensures
        result is Ok <==> {
            &&& encoding::hex_value(key_hex) matches Some(key)
            &&& key.len() == 32
            &&& exists|b: Seq<u8>| payload_b64 == #[trigger] encoding::base64_text(b)
            &&& exists|b: Seq<u8>|
                signature_b64 == #[trigger] encoding::base64_text(b) && b.len() == 64
        },
        result matches Ok(b) ==> {
            &&& encoding::hex_value(key_hex) == Some(b.key@)
            &&& encoding::base64_text(b.payload@) == payload_b64
            &&& encoding::base64_text(b.signature@) == signature_b64
        },
        encoding::hex_value(key_hex) is None ==> (result matches Err(BundleError::Invalid(message))
            && message@ == "key: must be hex"@),
        encoding::hex_value(key_hex) is Some && (forall|b: Seq<u8>|
            payload_b64 != #[trigger] encoding::base64_text(b)) ==> (result matches Err(
            BundleError::Invalid(message),
        ) && message@ == "payload: not valid base64"@),
        encoding::hex_value(key_hex) is Some && (exists|b: Seq<u8>|
            payload_b64 == #[trigger] encoding::base64_text(b)) && (forall|b: Seq<u8>|
            signature_b64 != #[trigger] encoding::base64_text(b)) ==> (result matches Err(
            BundleError::Invalid(message),
        ) && message@ == "signature: not valid base64"@),
        (exists|b: Seq<u8>| payload_b64 == #[trigger] encoding::base64_text(b)) && (exists|b: Seq<u8>|
            signature_b64 == #[trigger] encoding::base64_text(b)) && (encoding::hex_value(
            key_hex,
        ) matches Some(key) && key.len() != 32) ==> (result matches Err(
            BundleError::Invalid(message),
        ) && message@ == "key: must be 32 bytes"@),
        (exists|b: Seq<u8>| payload_b64 == #[trigger] encoding::base64_text(b)) && (exists|b: Seq<u8>|
            signature_b64 == #[trigger] encoding::base64_text(b) && b.len() != 64) && (
        encoding::hex_value(key_hex) matches Some(key) && key.len() == 32) ==> (result matches Err(
            BundleError::Invalid(message),
        ) && message@ == "signature: must be 64 bytes"@),
{
    lemma_base64_value(payload_b64);
    lemma_base64_value(signature_b64);
    if let Some(signature) = encoding::base64_value(signature_b64) {
        assert forall|b: Seq<u8>| signature_b64 == #[trigger] encoding::base64_text(
            b,
        ) implies b == signature by {
            encoding::base64_text_is_injective(b, signature);
        }
    }
}

/// Every hex text of a 32-byte key, base64 text of a payload of any length and
/// base64 text of a 64-byte signature make up a submission, nothing else does,
/// and the submission holds the bytes that the texts spell. Of several faults the
/// first in the order key, payload, signature is reported.
pub proof fn submissions_in_text_are_taken_by_what_they_spell(
    result: Result<Submission, SubmitError>,
    key_hex: Seq<char>,
    payload_b64: Seq<char>,
    signature_b64: Seq<char>,
    field: KeyField,
)
    requires
        submit::is_decoding(
            result,
            SubmissionContent::from_encoded(key_hex, payload_b64, signature_b64, field),
        ),
    ensures
        result is Ok <==> {
            &&& encoding::hex_value(key_hex) matches Some(key)
            &&& key.len() == 32
            &&& exists|b: Seq<u8>| payload_b64 == #[trigger] encoding::base64_text(b)
            &&& exists|b: Seq<u8>|
                signature_b64 == #[trigger] encoding::base64_text(b) && b.len() == 64
        },
        result matches Ok(s) ==> {
            &&& encoding::hex_value(key_hex) == Some(s.key@)
            &&& encoding::base64_text(s.payload@) == payload_b64
            &&& encoding::base64_text(s.signature@) == signature_b64
        },
        !(encoding::hex_value(key_hex) matches Some(key) && key.len() == 32) ==> (result matches Err(
            SubmitError::Invalid(message),
        ) && message@ == match field {
            KeyField::DeviceId => "device_id: must be hex of a 32-byte key"@,
            KeyField::AccountPub => "account_pub: must be hex of a 32-byte key"@,
        }),
        (encoding::hex_value(key_hex) matches Some(key) && key.len() == 32) && (forall|b: Seq<u8>|
            payload_b64 != #[trigger] encoding::base64_text(b)) ==> (result matches Err(
            SubmitError::Invalid(message),
        ) && message@ == "payload: not valid base64"@),
        (encoding::hex_value(key_hex) matches Some(key) && key.len() == 32) && (exists|b: Seq<u8>|
            payload_b64 == #[trigger] encoding::base64_text(b)) && (forall|b: Seq<u8>|
            signature_b64 == #[trigger] encoding::base64_text(b) ==> b.len() != 64) ==> (
        result matches Err(SubmitError::Invalid(message)) && message@
            == "signature: must be base64 of 64 bytes"@),
{
    lemma_base64_value(payload_b64);
    lemma_base64_value(signature_b64);
    if let Some(signature) = encoding::base64_value(signature_b64) {
        assert forall|b: Seq<u8>| signature_b64 == #[trigger] encoding::base64_text(
            b,
        ) implies b == signature by {
            encoding::base64_text_is_injective(b, signature);
        }
    }
}

/// Whatever the bytes, their texts decode to them: a 32-byte key, a payload of any
/// length and a 64-byte signature come out of their texts as they went in.
pub proof fn texts_decode_to_the_bytes_they_were_made_from(
    key: Seq<u8>,
    payload: Seq<u8>,
    signature: Seq<u8>,
    field: KeyField,
)
    requires
        key.len() == 32,
        signature.len() == 64,
    ensures
        handlers::decoded_bundle(
            encoding::hex_text(key),
            encoding::base64_text(payload),
            encoding::base64_text(signature),
        ) == Ok::<BundleContent, Seq<char>>(BundleContent { key, payload, signature }),
        SubmissionContent::from_encoded(
            encoding::hex_text(key),
            encoding::base64_text(payload),
            encoding::base64_text(signature),
            field,
        ) == Ok::<SubmissionContent, Seq<char>>(SubmissionContent { key, payload, signature }),
{
    encoding::hex_round_trip(key);
    encoding::base64_round_trip(payload);
    encoding::base64_round_trip(signature);
}

/// The canonical hex of bytes has two digits per byte and no uppercase letter.
pub proof fn canonical_hex_is_lowercase(bytes: Seq<u8>)
    ensures
        encoding::hex_text(bytes).len() == 2 * bytes.len(),
        forall|i: int|
            0 <= i < 2 * bytes.len() ==> ('0' <= #[trigger] encoding::hex_text(bytes)[i] <= '9'
                || 'a' <= encoding::hex_text(bytes)[i] <= 'f'),
{
}

/// Hex digits of either case count: a text has a value exactly if it is made of an
/// even number of them.
pub proof fn hex_is_taken_in_either_case(text: Seq<char>)
    ensures
        encoding::hex_value(text) is Some <==> text.len() % 2 == 0 && forall|i: int|
            0 <= i < text.len() ==> ('0' <= #[trigger] text[i] <= '9' || 'a' <= text[i] <= 'f'
                || 'A' <= text[i] <= 'F'),
        encoding::hex_value(text) matches Some(bytes) ==> 2 * bytes.len() == text.len(),
{
    if text.len() % 2 == 0 {
        if encoding::is_hex(text) {
            assert forall|i: int| 0 <= i < text.len() implies ('0' <= #[trigger] text[i] <= '9'
                || 'a' <= text[i] <= 'f' || 'A' <= text[i] <= 'F') by {
                assert(encoding::hex_digit_value(text[i]) is Some);
            }
        }
    }
}

/// The base64 of bytes has four characters for every three bytes begun, and fits
/// into a string exactly if that many do.
pub proof fn base64_grows_by_a_third(bytes: Seq<u8>)
    ensures
        encoding::base64_text(bytes).len() == 4 * ((bytes.len() + 2) / 3),
        encoding::base64_fits(bytes.len()) <==> encoding::base64_text(bytes).len() <= isize::MAX,
{
}

// ---- verification ------------------------------------------------------------

/// A bundle verifies exactly if its key is an Ed25519 key and its signature is one
/// over its payload under that key, whatever the payload; and so does a
/// submission of the same bytes.
pub proof fn whatever_is_authentic_verifies(
    key: Seq<u8>,
    payload: Seq<u8>,
    signature: Seq<u8>,
    field: KeyField,
)
    ensures
        ({
            let bundle = BundleContent { key, payload, signature };
            let submission = SubmissionContent { key, payload, signature };
            let signed = signing::is_ed25519_signature(key, payload, signature);
            &&& bundle.verified() is Ok <==> signing::is_ed25519_key(key) && signed
            &&& bundle.is_authentic() <==> signing::is_ed25519_key(key) && signed
            &&& submission.verified(field) is Ok <==> signing::is_ed25519_key(key) && signed
            &&& !signing::is_ed25519_key(key) ==> {
                &&& bundle.verified() == Err::<(), Seq<char>>("key: not a valid ed25519 key"@)
                &&& submission.verified(field) == Err::<(), Seq<char>>(
                    match field {
                        KeyField::DeviceId => "device_id: not a valid ed25519 key"@,
                        KeyField::AccountPub => "account_pub: not a valid ed25519 key"@,
                    },
                )
            }
            &&& signing::is_ed25519_key(key) && !signed ==> {
                &&& bundle.verified() == Err::<(), Seq<char>>("signature: verification failed"@)
                &&& submission.verified(field) == Err::<(), Seq<char>>(
                    "signature: verification failed"@,
                )
            }
        }),
{
}

/// The lamport of an account payload is the little-endian number in the eight
/// bytes behind its domain, `libchat:account-device-bundle` and a zero byte, and
/// its version byte; a payload that is shorter or begins otherwise has none. What
/// follows the lamport plays no part.
pub proof fn the_lamport_stands_behind_domain_and_version(payload: Seq<u8>)
    ensures
        store::lamport_of(payload) == if payload.len() >= 39 && payload[29] == 0 && forall|i: int|
            0 <= i < 29 ==> #[trigger] payload[i] as char == "libchat:account-device-bundle"@[i] {
            Some(vstd::bytes::spec_u64_from_le_bytes(payload.subrange(31, 39)))
        } else {
            None
        },
{
    let text = "libchat:account-device-bundle";
    let domain = store::bundle_domain();
    reveal_strlit("libchat:account-device-bundle");
    assert(domain.len() == 30);
    assert(domain[29] == 0);
    assert forall|i: int| 0 <= i < 29 implies #[trigger] domain[i] as char == text@[i] by {
    }
    if payload.len() >= 39 {
        if domain.is_prefix_of(payload) {
            assert forall|i: int| 0 <= i < 30 implies #[trigger] payload[i] == domain[i] by {
                assert(payload.subrange(0, 30)[i] == domain[i]);
            }
        }
        if payload[29] == 0 && forall|i: int|
            0 <= i < 29 ==> #[trigger] payload[i] as char == text@[i] {
            assert forall|i: int| 0 <= i < 30 implies #[trigger] payload[i] == domain[i] by {
                if i < 29 {
                    assert(payload[i] as char == domain[i] as char);
                }
            }
            assert(payload.subrange(0, 30) =~= domain);
        }
    }
}

/// An account bundle has a lamport exactly if it is authentic and its payload has
/// one, and it is that one; the same holds of a submission.
pub proof fn authentic_account_bundles_have_their_payload_s_lamport(
    key: Seq<u8>,
    payload: Seq<u8>,
    signature: Seq<u8>,
    lamport: u64,
)
    ensures
        ({
            let bundle = BundleContent { key, payload, signature };
            let submission = SubmissionContent { key, payload, signature };
            let authentic = signing::is_ed25519_key(key) && signing::is_ed25519_signature(
                key,
                payload,
                signature,
            );
            &&& bundle.account_lamport() == Ok::<u64, Seq<char>>(lamport) <==> authentic
                && store::lamport_of(payload) == Some(lamport)
            &&& submission.account_lamport() == Ok::<u64, Seq<char>>(lamport) <==> authentic
                && store::lamport_of(payload) == Some(lamport)
            &&& authentic && store::lamport_of(payload) is None ==> {
                &&& bundle.account_lamport() == Err::<u64, Seq<char>>(
                    "payload: too short to contain a lamport header"@,
                )
                &&& submission.account_lamport() == Err::<u64, Seq<char>>(
                    "payload: too short to contain a lamport header"@,
                )
            }
            &&& !authentic ==> {
                &&& bundle.account_lamport() is Err
                &&& submission.account_lamport() is Err
                &&& bundle.account_lamport()->Err_0 == bundle.verified()->Err_0
                &&& submission.account_lamport()->Err_0 == submission.verified(
                    KeyField::AccountPub,
                )->Err_0
            }
        }),
{
}

/// A bundle is filed under the lowercase hex of its key, from which the key can be
/// read back, and its payload and signature are filed whole; the same holds of a
/// submission.
pub proof fn bundles_are_filed_whole_under_their_key(
    key: Seq<u8>,
    payload: Seq<u8>,
    signature: Seq<u8>,
)
    ensures
        ({
            let bundle = BundleContent { key, payload, signature };
            let submission = SubmissionContent { key, payload, signature };
            &&& bundle.name() == encoding::hex_text(key)
            &&& submission.name() == encoding::hex_text(key)
            &&& encoding::hex_value(bundle.name()) == Some(key)
            &&& bundle.signed_payload().payload == payload
            &&& bundle.signed_payload().signature == signature
            &&& submission.signed_payload().payload == payload
            &&& submission.signed_payload().signature == signature
        }),
{
    encoding::hex_round_trip(key);
}

} // verus!
