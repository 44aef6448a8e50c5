//! Periodic refresh of a local geolocation database: decoding of CSV rows
//! into typed records, batched multi-row inserts with backpressure between
//! a producer and a consumer, and a versioned atomic-swap promotion of the
//! freshly built database over the previous generation.

pub mod batch;
pub mod db;
pub mod errors;
pub mod freshness;
pub mod parse;
pub mod record;
pub mod sql;
pub mod swap;

use vstd::prelude::*;

verus! {

/// Seconds in seven days: the age at which the active dataset goes stale.
pub const WEEK_SECS: u64 = 604800;

} // verus!
