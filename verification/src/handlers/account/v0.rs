//! `/v0/account`: publishing and fetching account device lists.
use vstd::prelude::*;

use crate::clock;
use crate::encoding;
use crate::handlers;
use crate::handlers::{ApiError, BAD_REQUEST, CONFLICT, NOT_FOUND, NO_CONTENT};
use crate::store::{AccountBundle, Store, StoredAccountBundle};
use crate::submit;
use crate::submit::{KeyField, SubmissionContent, SubmitAccountRequest, SubmitError};

verus! {

/// A stored account bundle in text.
#[derive(Debug)]
pub struct FetchAccountResponse {
    /// Base64 of the stored payload; consumers verify `signature` over it.
    pub payload: String,
    /// Base64 of the signature.
    pub signature: String,
    /// When the bundle was stored, in Unix milliseconds.
    pub updated_at: i64,
}

impl FetchAccountResponse {
    /// Whether the response spells this bundle.
    pub open spec fn spells(self, bundle: AccountBundle) -> bool {
        &&& self.payload@ == encoding::base64_text(bundle.content.payload)
        &&& self.signature@ == encoding::base64_text(bundle.content.signature)
        &&& self.updated_at == bundle.updated_at
    }

    /// Spells a stored account bundle in text.
    pub fn from_stored(bundle: &StoredAccountBundle) -> (response: FetchAccountResponse)
        requires
            encoding::base64_fits(bundle@.content.payload.len()),
            encoding::base64_fits(bundle@.content.signature.len()),
        ensures
            response.spells(bundle@),
            response.payload@ == encoding::base64_text(bundle.payload@),
            response.signature@ == encoding::base64_text(bundle.signature@),
            response.updated_at == bundle.updated_at,
    {
        FetchAccountResponse {
            payload: encoding::base64_encode(bundle.payload.as_slice()),
            signature: encoding::base64_encode(bundle.signature.as_slice()),
            updated_at: bundle.updated_at,
        }
    }
}

/// `POST /v0/account`: verifies an account bundle and stores it if it is newer
/// than the stored one.
pub fn submit_account(store: &mut Store, request: &SubmitAccountRequest) -> (result: Result<
    u16,
    ApiError,
>)
    ensures
        match SubmissionContent::from_encoded(
            request.account_pub@,
            request.payload@,
            request.signature@,
            KeyField::AccountPub,
        ) {
            Err(message) => {
                &&& handlers::is_refused(result, BAD_REQUEST, message)
                &&& final(store)@ == old(store)@
            },
            Ok(content) => match content.account_lamport() {
                Err(message) => {
                    &&& handlers::is_refused(result, BAD_REQUEST, message)
                    &&& final(store)@ == old(store)@
                },
                Ok(lamport) => {
                    &&& if old(store)@.accepts_account(content.name(), lamport) {
                        result == Ok::<u16, ApiError>(NO_CONTENT)
                    } else {
                        handlers::is_refused(result, CONFLICT, SubmitError::Stale.text())
                    }
                    &&& exists|now: u64| #[trigger]
                        clock::is_clock_reading(now) && final(store)@ == old(store)@.offered_account(
                            content.name(),
                            lamport,
                            content.signed_payload(),
                            now,
                        )
                },
            },
        },
        result is Err ==> final(store)@ == old(store)@,
{
    match request.decode() {
        Ok(submission) => {
            let applied = submit::apply_account(store, &submission);
            handlers::answer_submission(applied)
        },
        Err(err) => Err(ApiError::from_submission(err)),
    }
}

/// What `GET /v0/account/{account_pub}` answers, given what the store found.
pub fn fetch_answer(found: Option<StoredAccountBundle>) -> (result: Result<
    FetchAccountResponse,
    ApiError,
>)
    requires
        found matches Some(bundle) ==> encoding::base64_fits(bundle@.content.payload.len())
            && encoding::base64_fits(bundle@.content.signature.len()),
    ensures
        match found {
            Some(bundle) => result matches Ok(response) && response.spells(bundle@),
            None => result matches Err(answer) && answer.says(
                NOT_FOUND,
                "no bundle for account"@,
            ),
        },
        found matches Some(bundle) ==> (result matches Ok(response) && response.payload@
            == encoding::base64_text(bundle.payload@) && response.signature@
            == encoding::base64_text(bundle.signature@) && response.updated_at
            == bundle.updated_at),
{
    match found {
        Some(bundle) => Ok(FetchAccountResponse::from_stored(&bundle)),
        None => Err(ApiError::not_found("no bundle for account")),
    }
}

/// `GET /v0/account/{account_pub}`: the account's bundle, whatever the
/// casing of its key.
pub fn fetch_account(store: &Store, account_pub: &str) -> (result: Result<
    FetchAccountResponse,
    ApiError,
>)
    requires
        store@.account(handlers::filed_under(account_pub@)) matches Some(bundle) ==> encoding::base64_fits(
            bundle.content.payload.len(),
        ) && encoding::base64_fits(bundle.content.signature.len()),
    ensures
        match store@.account(handlers::filed_under(account_pub@)) {
            Some(bundle) => result matches Ok(response) && response.spells(bundle),
            None => result matches Err(answer) && answer.says(
                NOT_FOUND,
                "no bundle for account"@,
            ),
        },
{
    let name = handlers::file_name(account_pub);
    fetch_answer(store.get_account(name.as_str()))
}

} // verus!
