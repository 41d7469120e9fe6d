//! The wall clock.

use vstd::prelude::*;

verus! {

/// Reads the clock with `chrono::Utc::now` and gives the time as seconds
/// since the Unix epoch.  Nothing is claimed of the value.
#[verifier::external_body]
pub(crate) fn unix_now() -> i64 {
    chrono::Utc::now().timestamp()
}

} // verus!
