//! The wall clock, read through `chrono`.

use vstd::prelude::*;

verus! {

/// Seconds since the Unix epoch now (`chrono::Utc::now().timestamp()`).
/// The value depends on the time of the call; nothing is promised of it.
#[verifier::external_body]
pub(crate) fn unix_timestamp_now() -> i64 {
    chrono::Utc::now().timestamp()
}

/// Milliseconds since the Unix epoch now (`chrono::Utc::now().timestamp_millis()`).
/// The value depends on the time of the call; nothing is promised of it.
#[verifier::external_body]
pub(crate) fn unix_timestamp_millis_now() -> i64 {
    chrono::Utc::now().timestamp_millis()
}

/// The current time as an RFC 3339 string (`chrono::Utc::now().to_rfc3339()`).
/// The value depends on the time of the call; nothing is promised of it.
#[verifier::external_body]
pub(crate) fn rfc3339_now() -> String {
    chrono::Utc::now().to_rfc3339()
}

} // verus!
