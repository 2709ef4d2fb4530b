//! The server's clock.

use vstd::prelude::*;

verus! {

/// `chrono::Utc::now` and `DateTime::timestamp`: the current second, counted
/// from the Unix epoch. Nothing is claimed of the value: two readings may
/// differ in either direction. The call does not return where the system
/// clock stands before the epoch.
#[verifier::external_body]
pub(crate) fn unix_now() -> i64 {
    chrono::Utc::now().timestamp()
}

} // verus!
