//! `/v1/account`: publishing account logs.
use vstd::prelude::*;

use crate::account_log::{AccountLogError, AccountLogRecord, LogFreshness, Outcome};
use crate::bundle;
use crate::bundle::BundleError;
use crate::handlers;
use crate::handlers::{ApiError, BAD_REQUEST, CONFLICT, NO_CONTENT};
use crate::store::Store;

verus! {

/// A log submission, as far as reading it got.
#[derive(Debug)]
pub enum LogSubmission {
    /// The address in the path is no account address.
    UnknownAddress,
    /// The body is no signed log.
    Unreadable(AccountLogError),
    /// The body is a signed log; it may have failed its checks.
    Read(Result<AccountLogRecord, AccountLogError>),
}

/// Whether `result` is the answer to a well-formed log that met this outcome.
pub open spec fn log_status(outcome: Outcome, result: Result<u16, ApiError>) -> bool {
    match outcome {
        Outcome::Updated => result == Ok::<u16, ApiError>(NO_CONTENT),
        Outcome::Unchanged(LogFreshness::Identical) => result == Ok::<u16, ApiError>(NO_CONTENT),
        Outcome::Unchanged(LogFreshness::Behind) => handlers::is_refused(
            result,
            CONFLICT,
            BundleError::Stale.text(),
        ),
        Outcome::Unchanged(LogFreshness::Diverged) => handlers::is_refused(
            result,
            CONFLICT,
            BundleError::Forked.text(),
        ),
        Outcome::Unchanged(LogFreshness::Ahead) => false,
    }
}

/// What a submission that was read is answered before the store sees it: the
/// finding on the log, or why there is no log.
pub fn read_submission(submission: LogSubmission) -> (result: Result<
    Result<AccountLogRecord, AccountLogError>,
    BundleError,
>)
    ensures
        match submission {
            LogSubmission::UnknownAddress => result matches Err(err) && err.is_refusal(
                "account_addr: not a valid account address"@,
            ),
            LogSubmission::Unreadable(cause) => result == Err::<
                Result<AccountLogRecord, AccountLogError>,
                BundleError,
            >(BundleError::MalformedLog(cause)),
            LogSubmission::Read(checked) => result == Ok::<
                Result<AccountLogRecord, AccountLogError>,
                BundleError,
            >(checked),
        },
{
    match submission {
        LogSubmission::UnknownAddress => Err(
            BundleError::Invalid("account_addr: not a valid account address"),
        ),
        LogSubmission::Unreadable(cause) => Err(BundleError::MalformedLog(cause)),
        LogSubmission::Read(checked) => Ok(checked),
    }
}

/// `POST /v1/account/{account_addr}`: stores an account log if it strictly
/// extends the stored one. Publishing the stored log again is accepted and
/// changes nothing.
pub fn submit_account(store: &mut Store, submission: LogSubmission) -> (result: Result<
    u16,
    ApiError,
>)
    ensures
        match submission {
            LogSubmission::UnknownAddress => {
                &&& handlers::is_refused(
                    result,
                    BAD_REQUEST,
                    "account_addr: not a valid account address"@,
                )
                &&& final(store)@ == old(store)@
            },
            LogSubmission::Unreadable(cause) => {
                &&& handlers::is_refused(result, BAD_REQUEST, cause.reason())
                &&& final(store)@ == old(store)@
            },
            LogSubmission::Read(Err(AccountLogError::SignatureInvalid(_))) => {
                &&& handlers::is_refused(result, BAD_REQUEST, "signature: verification failed"@)
                &&& final(store)@ == old(store)@
            },
            LogSubmission::Read(Err(cause)) => {
                &&& handlers::is_refused(result, BAD_REQUEST, cause.reason())
                &&& final(store)@ == old(store)@
            },
            LogSubmission::Read(Ok(record)) => {
                &&& log_status(old(store)@.log_outcome(record.addr@, record@), result)
                &&& final(store)@ == old(store)@.offered_log(record.addr@, record@)
            },
        },
        result is Err ==> final(store)@ == old(store)@,
{
    match read_submission(submission) {
        Ok(checked) => {
            let applied = bundle::apply_account_log(store, checked);
            handlers::answer_bundle(applied)
        },
        Err(err) => Err(ApiError::from(err)),
    }
}

} // verus!
