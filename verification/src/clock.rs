//! Wall-clock reading, reduced to seconds since the Unix epoch.
//!
//! Every timing decision in this crate (expiry of a secret, rolling of a
//! rate-limit window) is made by a function that takes the current time as a
//! plain `u64` argument, so that the decisions are deterministic and fully
//! specified. This module is the one place that asks the system what time it
//! is; the convenience entry points of the stores use it, and callers that
//! want a deterministic clock pass their own value instead.

use vstd::prelude::*;

verus! {

/// The largest instant `now_unix` can report: the last second of the year
/// 9999, the latest point the underlying clock can represent.
pub const MAX_UNIX_TIME: u64 = 253402300799;

/// Relies on `time::OffsetDateTime::now_utc` and `unix_timestamp`: the
/// current instant as whole seconds since 1970-01-01T00:00:00Z. The type
/// represents years -9999..=9999 only, so the value is at most the timestamp
/// of 9999-12-31T23:59:59Z.
#[verifier::external_body]
fn system_unix_timestamp() -> (t: i64)
    ensures
        t <= 253402300799,
{
    time::OffsetDateTime::now_utc().unix_timestamp()
}

/// The current time in whole seconds since the Unix epoch, clamped below at
/// zero (a clock set before 1970 reads as the epoch itself).
pub fn now_unix() -> (t: u64)
    ensures
        t <= MAX_UNIX_TIME,
{
    let raw = system_unix_timestamp();
    if raw < 0 {
        0
    } else {
        raw as u64
    }
}

} // verus!
