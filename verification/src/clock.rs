//! Access to the wall clock, the one effectful dependency of the engine.

use vstd::prelude::*;

verus! {

/// Relies on chrono::Utc::now: returns the current wall-clock time as whole
/// seconds since the Unix epoch. Nothing can be promised about the value
/// (the clock may jump); callers state what holds for every reading.
#[verifier::external_body]
pub fn now_timestamp_secs() -> i64 {
    chrono::Utc::now().timestamp()
}

} // verus!
