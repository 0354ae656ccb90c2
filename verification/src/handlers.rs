//! What the HTTP endpoints answer. What the resources share lives here: the
//! text encoding of a bundle and [`ApiError`].
use vstd::prelude::*;

use crate::bundle::{Bundle, BundleContent, BundleError};
use crate::encoding;
use crate::submit::SubmitError;

pub mod account;
pub mod keypackage;

verus! {

/// Status of a submission that was accepted.
pub const NO_CONTENT: u16 = 204;

/// Status of a submission that is malformed or fails verification.
pub const BAD_REQUEST: u16 = 400;

/// Status of a request for something that is not there.
pub const NOT_FOUND: u16 = 404;

/// Status of a valid submission that may not replace what is stored.
pub const CONFLICT: u16 = 409;

/// Status of a request that failed through no fault of its own.
pub const INTERNAL_SERVER_ERROR: u16 = 500;

/// The name that a key given in text is filed under: its lowercase hex, whatever
/// the casing of the text. A text that is no hex of 32 bytes stands for itself.
pub open spec fn filed_under(text: Seq<char>) -> Seq<char> {
    match encoding::hex_value(text) {
        Some(key) => if key.len() == 32 {
            encoding::hex_text(key)
        } else {
            text
        },
        None => text,
    }
}

/// The name to look a key given in text up by.
pub fn file_name(text: &str) -> (name: String)
    ensures
        name@ == filed_under(text@),
{
    match encoding::hex_decode(text) {
        Ok(key) => if key.len() == 32 {
            encoding::hex_encode(key.as_slice())
        } else {
            text.to_owned()
        },
        Err(_) => text.to_owned(),
    }
}

/// The bundle that three texts spell, or the message that refuses them.
pub open spec fn decoded_bundle(
    key_hex: Seq<char>,
    payload_b64: Seq<char>,
    signature_b64: Seq<char>,
) -> Result<BundleContent, Seq<char>> {
    let key = encoding::hex_value(key_hex);
    let payload = encoding::base64_value(payload_b64);
    let signature = encoding::base64_value(signature_b64);
    if key is None {
        Err("key: must be hex"@)
    } else if payload is None {
        Err("payload: not valid base64"@)
    } else if signature is None {
        Err("signature: not valid base64"@)
    } else {
        BundleContent::from_bytes(key->0, payload->0, signature->0)
    }
}

/// Reads a bundle from text: the key as hex, payload and signature as base64.
pub fn decode_bundle(key_hex: &str, payload_b64: &str, signature_b64: &str) -> (result: Result<
    Bundle,
    BundleError,
>)
    ensures
        crate::bundle::is_decoding(
            result,
            decoded_bundle(key_hex@, payload_b64@, signature_b64@),
        ),
{
    let key = match encoding::hex_decode(key_hex) {
        Ok(bytes) => bytes,
        Err(_) => {
            return Err(BundleError::Invalid("key: must be hex"));
        },
    };
    let payload = match encoding::base64_decode(payload_b64) {
        Ok(bytes) => bytes,
        Err(_) => {
            return Err(BundleError::Invalid("payload: not valid base64"));
        },
    };
    let signature = match encoding::base64_decode(signature_b64) {
        Ok(bytes) => bytes,
        Err(_) => {
            proof {
                encoding::base64_round_trip(payload@);
            }
            return Err(BundleError::Invalid("signature: not valid base64"));
        },
    };
    proof {
        encoding::base64_round_trip(payload@);
        encoding::base64_round_trip(signature@);
    }
    Bundle::from_bytes(key.as_slice(), payload.as_slice(), signature.as_slice())
}

/// An error answer: its HTTP status and the message in its body.
#[derive(Debug)]
pub struct ApiError {
    pub status: u16,
    pub message: String,
}

impl ApiError {
    /// Whether this is the answer with this status and message.
    pub open spec fn says(self, status: u16, message: Seq<char>) -> bool {
        self.status == status && self.message@ == message
    }

    /// Whether this is the answer to a bundle that was not stored for this
    /// reason.
    pub open spec fn answers(self, err: BundleError) -> bool {
        match err {
            BundleError::Invalid(_) => self.says(BAD_REQUEST, err.text()),
            BundleError::MalformedLog(_) => self.says(BAD_REQUEST, err.text()),
            BundleError::Stale => self.says(CONFLICT, err.text()),
            BundleError::Forked => self.says(CONFLICT, err.text()),
            BundleError::Internal(_) => self.says(INTERNAL_SERVER_ERROR, "internal error"@),
        }
    }

    /// Whether this is the answer to a submission that was not stored for this
    /// reason.
    pub open spec fn answers_submission(self, err: SubmitError) -> bool {
        match err {
            SubmitError::Invalid(_) => self.says(BAD_REQUEST, err.text()),
            SubmitError::Stale => self.says(CONFLICT, err.text()),
            SubmitError::Internal(_) => self.says(INTERNAL_SERVER_ERROR, "internal error"@),
        }
    }

    /// The answer to a request for something that is not there.
    pub fn not_found(message: &str) -> (answer: ApiError)
        ensures
            answer.says(NOT_FOUND, message@),
    {
        ApiError { status: NOT_FOUND, message: message.to_owned() }
    }

    /// The answer to a request that failed through no fault of its own. It keeps
    /// the cause to itself.
    pub fn internal() -> (answer: ApiError)
        ensures
            answer.says(INTERNAL_SERVER_ERROR, "internal error"@),
    {
        ApiError { status: INTERNAL_SERVER_ERROR, message: "internal error".to_owned() }
    }

    /// The answer to a bundle that was not stored.
    pub fn from(err: BundleError) -> (answer: ApiError)
        ensures
            answer.answers(err),
    {
        match err {
            BundleError::Invalid(_) => ApiError { status: BAD_REQUEST, message: err.to_string() },
            BundleError::MalformedLog(_) => ApiError {
                status: BAD_REQUEST,
                message: err.to_string(),
            },
            BundleError::Stale => ApiError { status: CONFLICT, message: err.to_string() },
            BundleError::Forked => ApiError { status: CONFLICT, message: err.to_string() },
            BundleError::Internal(_) => ApiError::internal(),
        }
    }

    /// The answer to a submission that was not stored.
    pub fn from_submission(err: SubmitError) -> (answer: ApiError)
        ensures
            answer.answers_submission(err),
    {
        match err {
            SubmitError::Invalid(_) => ApiError { status: BAD_REQUEST, message: err.to_string() },
            SubmitError::Stale => ApiError { status: CONFLICT, message: err.to_string() },
            SubmitError::Internal(_) => ApiError::internal(),
        }
    }
}

/// What a published bundle is answered, given what became of it.
pub fn answer_bundle(applied: Result<(), BundleError>) -> (result: Result<u16, ApiError>)
    ensures
        match applied {
            Ok(_) => result == Ok::<u16, ApiError>(NO_CONTENT),
            Err(err) => result matches Err(answer) && answer.answers(err),
        },
{
    match applied {
        Ok(_) => Ok(NO_CONTENT),
        Err(err) => Err(ApiError::from(err)),
    }
}

/// What a submission is answered, given what became of it.
pub fn answer_submission(applied: Result<(), SubmitError>) -> (result: Result<u16, ApiError>)
    ensures
        match applied {
            Ok(_) => result == Ok::<u16, ApiError>(NO_CONTENT),
            Err(err) => result matches Err(answer) && answer.answers_submission(err),
        },
{
    match applied {
        Ok(_) => Ok(NO_CONTENT),
        Err(err) => Err(ApiError::from_submission(err)),
    }
}

/// Whether a submission was refused with this status and message.
pub open spec fn is_refused(
    result: Result<u16, ApiError>,
    status: u16,
    message: Seq<char>,
) -> bool {
    result matches Err(answer) && answer.says(status, message)
}

} // verus!
