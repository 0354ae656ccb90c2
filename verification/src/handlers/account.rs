//! The account endpoints, one module per version.

pub mod v0;
pub mod v1;
