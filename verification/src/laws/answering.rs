//! What the answers are for: which status and words each outcome gets, and that a
//! response spells the stored bytes.
use vstd::prelude::*;

use crate::account_log::{AccountLogError, LogFreshness, Outcome};
use crate::bundle;
use crate::bundle::BundleError;
use crate::delivery;
use crate::delivery::{ACCOUNT_SUBMIT_TOPIC, KEYPACKAGE_SUBMIT_TOPIC};
use crate::encoding;
use crate::handlers;
use crate::handlers::account::v0::FetchAccountResponse;
use crate::handlers::account::v1;
use crate::handlers::keypackage::FetchKeyPackageResponse;
use crate::handlers::ApiError;
use crate::ingest;
use crate::laws;
use crate::laws::Event;
use crate::store;
use crate::store::{AccountBundle, SignedPayload, StoreState};
use crate::submit::{KeyField, SubmissionContent, SubmitError};

verus! {

// ---- responses ---------------------------------------------------------------

/// What is served of a key package decodes to the stored bytes, payload and
/// signature whole.
pub proof fn a_served_key_package_decodes_to_the_stored_one(
    response: FetchKeyPackageResponse,
    content: SignedPayload,
)
    requires
        response.spells(content),
    ensures
        response.payload@ == encoding::base64_text(content.payload),
        response.signature@ == encoding::base64_text(content.signature),
        encoding::base64_value(response.payload@) == Some(content.payload),
        encoding::base64_value(response.signature@) == Some(content.signature),
{
    encoding::base64_round_trip(content.payload);
    encoding::base64_round_trip(content.signature);
}

/// What is served of an account bundle decodes to the stored bytes, payload and
/// signature whole, and tells when it was stored.
pub proof fn a_served_account_decodes_to_the_stored_one(
    response: FetchAccountResponse,
    bundle: AccountBundle,
)
    requires
        response.spells(bundle),
    ensures
        response.payload@ == encoding::base64_text(bundle.content.payload),
        response.signature@ == encoding::base64_text(bundle.content.signature),
        encoding::base64_value(response.payload@) == Some(bundle.content.payload),
        encoding::base64_value(response.signature@) == Some(bundle.content.signature),
        response.updated_at == bundle.updated_at,
{
    encoding::base64_round_trip(bundle.content.payload);
    encoding::base64_round_trip(bundle.content.signature);
}

/// The response to a request for a device is the device's last request: after an
/// authentic key package was published in text, what is served under its id has
/// the fields of the request.
pub proof fn a_response_repeats_the_request(
    state: StoreState,
    device_id: Seq<char>,
    payload_b64: Seq<char>,
    signature_b64: Seq<char>,
    now_ms: u64,
    response: FetchKeyPackageResponse,
)
    requires
        handlers::decoded_bundle(device_id, payload_b64, signature_b64) matches Ok(bundle)
            && bundle.is_authentic() && {
            let next = laws::after(state, Event::KeyPackage { bundle, now_ms });
            next.latest(handlers::filed_under(device_id)) matches Some(content)
                ==> response.spells(content)
        },
    ensures
        response.payload@ == payload_b64,
        response.signature@ == signature_b64,
{
    laws::published_texts_are_served(state, device_id, payload_b64, signature_b64, now_ms);
}

/// The response to a request for an account is the account's last request that was
/// taken, with the time it was taken.
pub proof fn an_account_response_repeats_the_request(
    state: StoreState,
    account_pub: Seq<char>,
    payload_b64: Seq<char>,
    signature_b64: Seq<char>,
    now_ms: u64,
    response: FetchAccountResponse,
)
    requires
        SubmissionContent::from_encoded(
            account_pub,
            payload_b64,
            signature_b64,
            KeyField::AccountPub,
        ) matches Ok(submission) && submission.account_lamport() matches Ok(lamport)
            && state.accepts_account(submission.name(), lamport) && {
            let next = laws::after(state, Event::Account { bundle: submission.bundle(), now_ms });
            next.account(handlers::filed_under(account_pub)) matches Some(bundle)
                ==> response.spells(bundle)
        },
    ensures
        response.payload@ == payload_b64,
        response.signature@ == signature_b64,
        response.updated_at == now_ms as i64,
{
    laws::published_account_texts_are_served(
        state,
        account_pub,
        payload_b64,
        signature_b64,
        now_ms,
    );
}

/// Keys are looked up by their lowercase hex, and texts that are no hex of a
/// 32-byte key by themselves.
pub proof fn keys_are_looked_up_by_their_lowercase_hex(text: Seq<char>, key: Seq<u8>)
    ensures
        encoding::hex_value(text) == Some(key) && key.len() == 32 ==> handlers::filed_under(text)
            == encoding::hex_text(key),
        !(encoding::hex_value(text) matches Some(spelled) && spelled.len() == 32)
            ==> handlers::filed_under(text) == text,
{
}

// ---- refusals ----------------------------------------------------------------

/// The words of a bundle's refusal.
pub proof fn the_words_of_a_refused_bundle(err: BundleError, message: Seq<char>)
    ensures
        err.text() == match err {
            BundleError::Invalid(words) => words@,
            BundleError::MalformedLog(AccountLogError::SignatureInvalid(words)) => words@,
            BundleError::MalformedLog(AccountLogError::Malformed(words)) => words@,
            BundleError::MalformedLog(AccountLogError::RuleBroken(words)) => words@,
            BundleError::Stale => "stale bundle: not newer than the stored one"@,
            BundleError::Forked => "forked log: does not extend the stored one"@,
            BundleError::Internal(cause) => "internal: "@ + cause@,
        },
        err.is_refusal(message) <==> (err matches BundleError::Invalid(words) && words@ == message),
{
}

/// The words of a log's refusal.
pub proof fn the_words_of_a_refused_log(err: AccountLogError)
    ensures
        err.reason() == match err {
            AccountLogError::SignatureInvalid(words) => words@,
            AccountLogError::Malformed(words) => words@,
            AccountLogError::RuleBroken(words) => words@,
        },
{
}

/// The words of a submission's refusal.
pub proof fn the_words_of_a_refused_submission(err: SubmitError, message: Seq<char>)
    ensures
        err.text() == match err {
            SubmitError::Invalid(words) => words@,
            SubmitError::Stale => "stale bundle: lamport is not newer than the stored one"@,
            SubmitError::Internal(cause) => "internal: "@ + cause@,
        },
        err.is_refusal(message) <==> (err matches SubmitError::Invalid(words) && words@ == message),
{
}

/// An invalid bundle and a malformed log are bad requests, a stale bundle and a
/// forked log are conflicts, each answered in its own words; the cause of an
/// internal error stays untold.
pub proof fn refused_bundles_are_answered_by_their_kind(answer: ApiError, err: BundleError)
    requires
        answer.answers(err),
    ensures
        answer.status == match err {
            BundleError::Invalid(_) => 400u16,
            BundleError::MalformedLog(_) => 400u16,
            BundleError::Stale => 409u16,
            BundleError::Forked => 409u16,
            BundleError::Internal(_) => 500u16,
        },
        answer.message@ == match err {
            BundleError::Invalid(words) => words@,
            BundleError::MalformedLog(AccountLogError::SignatureInvalid(words)) => words@,
            BundleError::MalformedLog(AccountLogError::Malformed(words)) => words@,
            BundleError::MalformedLog(AccountLogError::RuleBroken(words)) => words@,
            BundleError::Stale => "stale bundle: not newer than the stored one"@,
            BundleError::Forked => "forked log: does not extend the stored one"@,
            BundleError::Internal(_) => "internal error"@,
        },
{
}

/// An invalid submission is a bad request and a stale one a conflict, each answered
/// in its own words; the cause of an internal error stays untold.
pub proof fn refused_submissions_are_answered_by_their_kind(answer: ApiError, err: SubmitError)
    requires
        answer.answers_submission(err),
    ensures
        answer.status == match err {
            SubmitError::Invalid(_) => 400u16,
            SubmitError::Stale => 409u16,
            SubmitError::Internal(_) => 500u16,
        },
        answer.message@ == match err {
            SubmitError::Invalid(words) => words@,
            SubmitError::Stale => "stale bundle: lamport is not newer than the stored one"@,
            SubmitError::Internal(_) => "internal error"@,
        },
{
}

/// The statuses are those of HTTP, and an answer says its own status and message.
pub proof fn an_answer_says_its_status_and_message(
    answer: ApiError,
    result: Result<u16, ApiError>,
    status: u16,
    message: Seq<char>,
)
    ensures
        handlers::NO_CONTENT == 204,
        handlers::BAD_REQUEST == 400,
        handlers::NOT_FOUND == 404,
        handlers::CONFLICT == 409,
        handlers::INTERNAL_SERVER_ERROR == 500,
        answer.says(status, message) <==> answer.status == status && answer.message@ == message,
        handlers::is_refused(result, status, message) <==> (result matches Err(refusal)
            && refusal.status == status && refusal.message@ == message),
{
}

/// A log that was taken and one that is stored already are both accepted; one that
/// the stored log extends is stale and one that neither extends nor is extended
/// forks it. Over HTTP that is 204, 204, 409 and 409.
pub proof fn logs_are_answered_by_their_outcome(
    result: Result<(), BundleError>,
    answer: Result<u16, ApiError>,
    outcome: Outcome,
)
    ensures
        bundle::is_log_answer(result, outcome) ==> match outcome {
            Outcome::Updated => result is Ok,
            Outcome::Unchanged(LogFreshness::Identical) => result is Ok,
            Outcome::Unchanged(LogFreshness::Behind) => result matches Err(BundleError::Stale),
            Outcome::Unchanged(LogFreshness::Diverged) => result matches Err(BundleError::Forked),
            Outcome::Unchanged(LogFreshness::Ahead) => result matches Err(
                BundleError::Internal(cause),
            ) && cause@ == "unexpected account log outcome: Unchanged(Ahead)"@,
        },
        v1::log_status(outcome, answer) ==> match outcome {
            Outcome::Updated => answer == Ok::<u16, ApiError>(204),
            Outcome::Unchanged(LogFreshness::Identical) => answer == Ok::<u16, ApiError>(204),
            Outcome::Unchanged(LogFreshness::Behind) => answer matches Err(refusal)
                && refusal.status == 409 && refusal.message@
                == "stale bundle: not newer than the stored one"@,
            Outcome::Unchanged(LogFreshness::Diverged) => answer matches Err(refusal)
                && refusal.status == 409 && refusal.message@
                == "forked log: does not extend the stored one"@,
            Outcome::Unchanged(LogFreshness::Ahead) => false,
        },
{
}

/// A message off either wire that was refused tells whose it was and why.
pub proof fn refused_messages_tell_whose_and_why(
    off_bytes: delivery::Ingested,
    off_text: ingest::Ingested,
    name: Seq<char>,
    message: Seq<char>,
)
    ensures
        delivery::is_rejected(off_bytes, name, message) <==> (
        off_bytes matches delivery::Ingested::Rejected(key, BundleError::Invalid(words)) && key@
            == name && words@ == message),
        ingest::is_rejected(off_text, name, message) <==> (
        off_text matches ingest::Ingested::Rejected(key, SubmitError::Invalid(words)) && key@ == name
            && words@ == message),
{
}

/// The topics of the delivery wires.
pub proof fn the_topics_of_the_wires()
    ensures
        KEYPACKAGE_SUBMIT_TOPIC@ == "/logos-chat/1/store-keypackage-v0/proto"@,
        ACCOUNT_SUBMIT_TOPIC@ == "/logos-chat/1/store-account-v0/proto"@,
{
}

// ---- opening -----------------------------------------------------------------

/// Of the paths that stand for a database in memory `:memory:` is the shortest,
/// and a path stands for one as long as slashes, and dots behind slashes, are put
/// at its end, and no other way.
pub proof fn memory_paths_grow_by_slashes_and_dots(path: Seq<char>, c: char)
    ensures
        store::names_memory(":memory:"@),
        path.len() <= 8 && store::names_memory(path) ==> path == ":memory:"@,
        path.len() >= 8 ==> (store::names_memory(path.push(c)) <==> store::names_memory(path) && (c
            == '/' || (c == '.' && path.last() == '/'))),
{
    reveal_strlit(":memory:");
    assert(":memory:"@.take(8) =~= ":memory:"@);
    if path.len() == 8 {
        assert(path.take(8) =~= path);
    }
    if path.len() >= 8 {
        let longer = path.push(c);
        assert(longer.take(8) =~= path.take(8));
        assert(longer[path.len() as int] == c);
        if store::names_memory(longer) {
            assert forall|i: int| 8 <= i < path.len() implies (#[trigger] path[i] == '/' || (path[i]
                == '.' && path[i - 1] == '/')) by {
                assert(longer[i] == path[i]);
            }
        }
        if store::names_memory(path) && (c == '/' || (c == '.' && path.last() == '/')) {
            assert forall|i: int| 8 <= i < longer.len() implies (#[trigger] longer[i] == '/' || (
            longer[i] == '.' && longer[i - 1] == '/')) by {
                if i < path.len() {
                    assert(longer[i] == path[i]);
                }
            }
        }
    }
}

} // verus!
