//! The clock and the timestamps, as `chrono` gives and reads them.
//!
//! Nothing here is proved: each function states what the call into
//! `chrono` returns.

use vstd::prelude::*;

verus! {

/// The moment that `chrono::DateTime::parse_from_rfc3339` reads from
/// `text`, as the whole seconds since 1970-01-01T00:00:00Z and the
/// nanoseconds past that second; `None` where it refuses `text`.
pub uninterp spec fn rfc3339_moment(text: Seq<char>) -> Option<(i64, u32)>;

/// The current time in UTC as RFC 3339 text: `chrono::Utc::now()`, written
/// by `to_rfc3339`. The result differs from call to call, so nothing is
/// stated of it. `Utc::now` panics where the system clock stands before
/// 1970 or beyond the dates chrono can hold.
#[verifier::external_body]
pub(crate) fn current_timestamp() -> String {
    chrono::Utc::now().to_rfc3339()
}

/// Calls `chrono::DateTime::parse_from_rfc3339` on `text` and hands out the
/// moment it read, by `timestamp` and `timestamp_subsec_nanos`.
#[verifier::external_body]
pub(crate) fn parse_rfc3339(text: &str) -> (out: Option<(i64, u32)>)
    ensures
        out == rfc3339_moment(text@),
{
    match chrono::DateTime::parse_from_rfc3339(text) {
        Ok(moment) => Some((moment.timestamp(), moment.timestamp_subsec_nanos())),
        Err(_) => None,
    }
}

} // verus!
