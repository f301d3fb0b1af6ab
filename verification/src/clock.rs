//! Trusted access to the wall clock.

use vstd::prelude::*;

verus! {

/// Relies on chrono::Utc::now().timestamp_millis(): the current UTC time as
/// epoch milliseconds. Nothing is assumed of the returned value; every
/// function of the core that depends on the current time takes it as an
/// argument and is verified for every value of it.
#[verifier::external_body]
pub fn now_millis() -> i64 {
    chrono::Utc::now().timestamp_millis()
}

} // verus!
