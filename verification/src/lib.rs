//! A store for signed chat bundles: key packages per device and device lists
//! per account.
use vstd::prelude::*;

pub mod account_log;
pub mod bundle;
pub mod clock;
pub mod delivery;
pub mod encoding;
pub mod handlers;
pub mod history;
pub mod ingest;
pub mod laws;
pub mod signing;
pub mod store;
pub mod submit;
pub mod table;

verus! {

} // verus!
