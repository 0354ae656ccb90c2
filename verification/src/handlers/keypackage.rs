//! `/v0/keypackage`: publishing and fetching key packages.
use vstd::prelude::*;

use crate::bundle;
use crate::bundle::{Bundle, BundleError};
use crate::clock;
use crate::encoding;
use crate::handlers;
use crate::handlers::{ApiError, BAD_REQUEST, NOT_FOUND, NO_CONTENT};
use crate::store::{SignedPayload, Store, StoredKeyPackageBundle};

verus! {

/// A signed key-package bundle in text.
#[derive(Debug)]
pub struct SubmitKeyPackageRequest {
    /// Hex of the 32-byte Ed25519 verifying key of the device.
    pub device_id: String,
    /// Base64 of the signed payload.
    pub payload: String,
    /// Base64 of the 64-byte Ed25519 signature over the payload.
    pub signature: String,
}

impl SubmitKeyPackageRequest {
    /// Decodes the request's hex and base64.
    pub fn decode(&self) -> (result: Result<Bundle, BundleError>)
        ensures
            bundle::is_decoding(
                result,
                handlers::decoded_bundle(self.device_id@, self.payload@, self.signature@),
            ),
    {
        handlers::decode_bundle(
            self.device_id.as_str(),
            self.payload.as_str(),
            self.signature.as_str(),
        )
    }
}

/// A stored key package in text.
#[derive(Debug)]
pub struct FetchKeyPackageResponse {
    /// Base64 of the stored payload; consumers verify `signature` over it.
    pub payload: String,
    /// Base64 of the signature.
    pub signature: String,
}

impl FetchKeyPackageResponse {
    /// Whether the response spells these bytes.
    pub open spec fn spells(self, content: SignedPayload) -> bool {
        self.payload@ == encoding::base64_text(content.payload) && self.signature@
            == encoding::base64_text(content.signature)
    }

    /// Spells a stored key package in text.
    pub fn from_stored(bundle: &StoredKeyPackageBundle) -> (response: FetchKeyPackageResponse)
        requires
            encoding::base64_fits(bundle@.payload.len()),
            encoding::base64_fits(bundle@.signature.len()),
        ensures
            response.spells(bundle@),
            response.payload@ == encoding::base64_text(bundle.payload@),
            response.signature@ == encoding::base64_text(bundle.signature@),
    {
        FetchKeyPackageResponse {
            payload: encoding::base64_encode(bundle.payload.as_slice()),
            signature: encoding::base64_encode(bundle.signature.as_slice()),
        }
    }
}

/// `POST /v0/keypackage`: verifies and stores a key package.
pub fn submit_key_package(store: &mut Store, request: &SubmitKeyPackageRequest) -> (result: Result<
    u16,
    ApiError,
>)
    ensures
        match handlers::decoded_bundle(request.device_id@, request.payload@, request.signature@) {
            Err(message) => {
                &&& handlers::is_refused(result, BAD_REQUEST, message)
                &&& final(store)@ == old(store)@
            },
            Ok(content) => match content.verified() {
                Err(message) => {
                    &&& handlers::is_refused(result, BAD_REQUEST, message)
                    &&& final(store)@ == old(store)@
                },
                Ok(_) => {
                    &&& result == Ok::<u16, ApiError>(NO_CONTENT)
                    &&& exists|now: u64| #[trigger]
                        clock::is_clock_reading(now) && final(store)@ == old(store)@.with_key_package(
                            content.name(),
                            content.signed_payload(),
                            now,
                        )
                },
            },
        },
        result is Err ==> final(store)@ == old(store)@,
{
    match request.decode() {
        Ok(bundle) => {
            let applied = bundle::apply_keypackage(store, &bundle);
            handlers::answer_bundle(applied)
        },
        Err(err) => Err(ApiError::from(err)),
    }
}

/// What `GET /v0/keypackage/{device_id}` answers, given what the store found.
pub fn fetch_answer(found: Option<StoredKeyPackageBundle>) -> (result: Result<
    FetchKeyPackageResponse,
    ApiError,
>)
    requires
        found matches Some(bundle) ==> encoding::base64_fits(bundle@.payload.len())
            && encoding::base64_fits(bundle@.signature.len()),
    ensures
        match found {
            Some(bundle) => result matches Ok(response) && response.spells(bundle@),
            None => result matches Err(answer) && answer.says(
                NOT_FOUND,
                "no keypackage for device"@,
            ),
        },
        found matches Some(bundle) ==> (result matches Ok(response) && response.payload@
            == encoding::base64_text(bundle.payload@) && response.signature@
            == encoding::base64_text(bundle.signature@)),
{
    match found {
        Some(bundle) => Ok(FetchKeyPackageResponse::from_stored(&bundle)),
        None => Err(ApiError::not_found("no keypackage for device")),
    }
}

/// `GET /v0/keypackage/{device_id}`: the device's most recently received key
/// package, whatever the casing of its id.
pub fn fetch_key_package(store: &Store, device_id: &str) -> (result: Result<
    FetchKeyPackageResponse,
    ApiError,
>)
    requires
        store@.latest(handlers::filed_under(device_id@)) matches Some(content) ==> encoding::base64_fits(
            content.payload.len(),
        ) && encoding::base64_fits(content.signature.len()),
    ensures
        match store@.latest(handlers::filed_under(device_id@)) {
            Some(content) => result matches Ok(response) && response.spells(content),
            None => result matches Err(answer) && answer.says(
                NOT_FOUND,
                "no keypackage for device"@,
            ),
        },
{
    let name = handlers::file_name(device_id);
    fetch_answer(store.latest(name.as_str()))
}

} // verus!
