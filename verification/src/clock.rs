//! The clock that stamps new items.

use vstd::prelude::*;

verus! {

/// The current time in UTC as an RFC 3339 string such as
/// `2024-05-01T09:30:00.123456789+00:00`: `chrono::Utc::now`, rendered by
/// `chrono::DateTime::to_rfc3339`.
///
/// Trusted, and nothing is claimed of the string: it depends on the system
/// clock, so two calls may differ. `Utc::now` panics where that clock stands
/// before 1970.
#[verifier::external_body]
pub(crate) fn now_rfc3339() -> (stamp: String) {
    chrono::Utc::now().to_rfc3339()
}

} // verus!
