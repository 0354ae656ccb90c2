//! Append-only account logs.
//!
//! A log is a list of entries. Publishing one replaces the stored log only when
//! it strictly extends it, so the stored log of an account never loses or
//! rewrites an entry.
use vstd::prelude::*;

verus! {

/// Why a submitted log is no account log, with the reason in words.
#[derive(Debug)]
pub enum AccountLogError {
    /// The signature does not match the account.
    SignatureInvalid(String),
    /// The payload does not decode.
    Malformed(String),
    /// The payload decodes, but breaks a rule of the log.
    RuleBroken(String),
}

impl AccountLogError {
    /// The reason in words.
    pub open spec fn reason(self) -> Seq<char> {
        match self {
            AccountLogError::SignatureInvalid(text) => text@,
            AccountLogError::Malformed(text) => text@,
            AccountLogError::RuleBroken(text) => text@,
        }
    }

    /// The reason in words.
    pub fn to_string(&self) -> (text: String)
        ensures
            text@ == self.reason(),
    {
        match self {
            AccountLogError::SignatureInvalid(text) => text.clone(),
            AccountLogError::Malformed(text) => text.clone(),
            AccountLogError::RuleBroken(text) => text.clone(),
        }
    }
}

/// An authentic, well-formed account log.
#[derive(Debug)]
pub struct AccountLogRecord {
    /// The account that signed the log.
    pub addr: String,
    /// The log as it was published: `signature || payload`.
    pub artifact: Vec<u8>,
    /// The entries that the payload decodes to, each in its encoding.
    pub entries: Vec<Vec<u8>>,
}

/// The published bytes of a log and the entries in it.
#[verifier::ext_equal]
pub struct AccountLog {
    pub artifact: Seq<u8>,
    pub entries: Seq<Seq<u8>>,
}

impl View for AccountLogRecord {
    type V = AccountLog;

    open spec fn view(&self) -> AccountLog {
        AccountLog {
            artifact: self.artifact@,
            entries: Seq::new(self.entries@.len(), |i: int| self.entries@[i]@),
        }
    }
}

/// How a submitted log relates to the stored one.
#[derive(Debug, Clone, Copy, PartialEq, Eq, Structural)]
pub enum LogFreshness {
    /// It holds the stored entries and more behind them.
    Ahead,
    /// It holds the same entries.
    Identical,
    /// The stored log extends it.
    Behind,
    /// Neither extends the other.
    Diverged,
}

/// What became of a submitted log.
#[derive(Debug, Clone, Copy, PartialEq, Eq, Structural)]
pub enum Outcome {
    /// It is now the stored one.
    Updated,
    /// The stored log stays as it was.
    Unchanged(LogFreshness),
}

/// How `candidate` relates to `stored`.
pub open spec fn freshness(stored: Seq<Seq<u8>>, candidate: Seq<Seq<u8>>) -> LogFreshness {
    if candidate == stored {
        LogFreshness::Identical
    } else if stored.is_prefix_of(candidate) {
        LogFreshness::Ahead
    } else if candidate.is_prefix_of(stored) {
        LogFreshness::Behind
    } else {
        LogFreshness::Diverged
    }
}

/// What becomes of a log with these entries where the log with the `stored`
/// entries, if any, is on file: it replaces it only when it strictly extends it.
pub open spec fn outcome_of(stored: Option<Seq<Seq<u8>>>, candidate: Seq<Seq<u8>>) -> Outcome {
    match stored {
        None => Outcome::Updated,
        Some(entries) => match freshness(entries, candidate) {
            LogFreshness::Ahead => Outcome::Updated,
            other => Outcome::Unchanged(other),
        },
    }
}

/// Whether two byte strings are the same.
fn same_bytes(a: &Vec<u8>, b: &Vec<u8>) -> (same: bool)
    ensures
        same == (a@ == b@),
{
    if a.len() != b.len() {
        return false;
    }
    let mut i: usize = 0;
    while i < a.len()
        invariant
            i <= a@.len(),
            a@.len() == b@.len(),
            forall|j: int| 0 <= j < i ==> a@[j] == b@[j],
        decreases a.len() - i,
    {
        if a[i] != b[i] {
            return false;
        }
        i = i + 1;
    }
    assert(a@ =~= b@);
    true
}

impl AccountLogRecord {
    /// How this log relates to the stored one.
    pub fn freshness_against(&self, stored: &AccountLogRecord) -> (result: LogFreshness)
        ensures
            result == freshness(stored@.entries, self@.entries),
    {
        let mut i: usize = 0;
        while i < self.entries.len() && i < stored.entries.len()
            invariant
                i <= self@.entries.len(),
                i <= stored@.entries.len(),
                forall|j: int| 0 <= j < i ==> self@.entries[j] == stored@.entries[j],
            decreases self.entries.len() - i,
        {
            if !same_bytes(&self.entries[i], &stored.entries[i]) {
                assert(self@.entries[i as int] != stored@.entries[i as int]);
                return LogFreshness::Diverged;
            }
            i = i + 1;
        }
        if self.entries.len() == stored.entries.len() {
            assert(self@.entries =~= stored@.entries);
            LogFreshness::Identical
        } else if self.entries.len() > stored.entries.len() {
            assert(self@.entries.subrange(0, i as int) =~= stored@.entries);
            LogFreshness::Ahead
        } else {
            assert(stored@.entries.subrange(0, i as int) =~= self@.entries);
            assert(!stored@.entries.is_prefix_of(self@.entries));
            LogFreshness::Behind
        }
    }

    /// What becomes of this log where `stored`, if any, is on file.
    pub fn outcome_against(&self, stored: Option<&AccountLogRecord>) -> (outcome: Outcome)
        ensures
            outcome == outcome_of(
                match stored {
                    Some(record) => Some(record@.entries),
                    None => None,
                },
                self@.entries,
            ),
    {
        match stored {
            Some(record) => match self.freshness_against(record) {
                LogFreshness::Ahead => Outcome::Updated,
                other => Outcome::Unchanged(other),
            },
            None => Outcome::Updated,
        }
    }
}

/// A log is stale for exactly the logs that are ahead of it.
pub proof fn freshness_mirrors(a: Seq<Seq<u8>>, b: Seq<Seq<u8>>)
    ensures
        freshness(a, b) == LogFreshness::Ahead <==> freshness(b, a) == LogFreshness::Behind,
        freshness(a, b) == LogFreshness::Identical <==> freshness(b, a) == LogFreshness::Identical,
        freshness(a, b) == LogFreshness::Diverged <==> freshness(b, a) == LogFreshness::Diverged,
{
    if a.is_prefix_of(b) && b.is_prefix_of(a) {
        assert(a =~= b);
    }
}

} // verus!
