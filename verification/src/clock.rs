//! The wall clock.

use vstd::prelude::*;

verus! {

/// `chrono::Utc::now`, read as milliseconds since the Unix epoch
/// (`DateTime::timestamp_millis`). Nothing is claimed of the value: it is
/// whatever the system clock says at the moment of the call.
#[verifier::external_body]
pub(crate) fn now_millis() -> i64 {
    chrono::Utc::now().timestamp_millis()
}

} // verus!
