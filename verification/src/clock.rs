//! The one reading the library takes from the system clock.

use vstd::prelude::*;

verus! {

/// Relies on chrono::Utc::now: the current instant, taken as Unix seconds.
/// The value depends on the machine's clock, so nothing is assumed of it;
/// callers state what holds for every reading.
#[verifier::external_body]
pub(crate) fn now_timestamp() -> i64 {
    chrono::Utc::now().timestamp()
}

} // verus!
