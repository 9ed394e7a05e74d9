//! The one place where the crate reads the time.

use vstd::prelude::*;

verus! {

/// Calls `chrono::Utc::now` and takes the `timestamp` of what it returns:
/// whole seconds since the Unix epoch, by the system clock. The value
/// depends on when the call is made, so nothing is promised of it.
/// `chrono` panics where the system clock stands before the epoch.
#[verifier::external_body]
pub(crate) fn epoch_seconds() -> i64 {
    chrono::Utc::now().timestamp()
}

} // verus!
