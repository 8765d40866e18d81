//! Fresh values stamped onto events at construction time: correlation
//! identifiers and creation timestamps.

use crate::json::json_safe;
use vstd::prelude::*;

verus! {

/// Relies on uuid::Uuid::new_v4 and its hyphenated `Display` form: a fresh
/// random identifier printed as 36 ASCII characters, each a lowercase hex
/// digit or a hyphen.  Nothing further can be promised of a random value.
#[verifier::external_body]
pub fn new_trace_id() -> (r: String)
    ensures
        r@.len() == 36,
        json_safe(r@),
{
    uuid::Uuid::new_v4().to_string()
}

/// Relies on chrono::Local::now().timestamp_millis: the current wall-clock
/// time in milliseconds since the Unix epoch.  The value depends on the
/// clock, so nothing is promised of it.
#[verifier::external_body]
pub fn now_ms() -> u64 {
    chrono::Local::now().timestamp_millis() as u64
}

/// Relies on chrono::Utc::now().to_rfc3339: the current time printed in
/// RFC 3339 form, which uses only digits, letters and the punctuation
/// `-+:.T`, all wire-safe ASCII.
#[verifier::external_body]
pub fn now_rfc3339() -> (r: String)
    ensures
        r@.len() > 0,
        json_safe(r@),
{
    chrono::Utc::now().to_rfc3339()
}

} // verus!
