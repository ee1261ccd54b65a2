//! Wall-clock readings. Nothing is assumed of the clock's values: every
//! function that depends on a moment takes it as an argument, so its contract
//! holds whatever the clock returned.

use vstd::prelude::*;
use std::time::{SystemTime, UNIX_EPOCH};

verus! {

/// Relies on std::time::SystemTime::now and duration_since: seconds since the
/// Unix epoch (0 if the clock is before it).
#[verifier::external_body]
fn system_secs() -> u64 {
    SystemTime::now().duration_since(UNIX_EPOCH).map(|d| d.as_secs()).unwrap_or(0)
}

/// Relies on std::time::SystemTime::now and duration_since: milliseconds
/// since the Unix epoch (0 if the clock is before it).
#[verifier::external_body]
fn system_millis() -> u128 {
    SystemTime::now().duration_since(UNIX_EPOCH).map(|d| d.as_millis()).unwrap_or(0)
}

/// The wall clock in whole seconds since the Unix epoch.
pub fn current_secs() -> u64 {
    system_secs()
}

/// The wall clock in whole milliseconds since the Unix epoch.
pub fn current_millis() -> u128 {
    system_millis()
}

} // verus!
