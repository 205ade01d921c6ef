//! The system clock.

use vstd::prelude::*;

verus! {

/// `chrono::Utc::now().timestamp()`: the system clock in whole seconds since
/// the Unix epoch. Nothing is claimed of the value. The call panics where
/// the system clock stands before the epoch.
#[verifier::external_body]
pub(crate) fn unix_now() -> i64 {
    chrono::Utc::now().timestamp()
}

} // verus!
