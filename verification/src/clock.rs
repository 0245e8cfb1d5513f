//! The wall clock.

use vstd::prelude::*;

verus! {

/// Reads the wall clock: `chrono::Utc::now()`, converted by
/// `DateTime::timestamp_millis` to milliseconds since the Unix epoch.
///
/// Nothing is claimed of the value: two readings may differ in either
/// direction. The call is trusted to return, which it does unless the system
/// clock is set before the Unix epoch.
#[verifier::external_body]
pub(crate) fn now_millis() -> (now: i64) {
    chrono::Utc::now().timestamp_millis()
}

} // verus!
