//! The wall clock, in milliseconds since the Unix epoch.

use vstd::prelude::*;

verus! {

/// Milliseconds in one second, minute, hour and day.
pub const MILLIS_PER_SECOND: i64 = 1_000;

pub const MILLIS_PER_MINUTE: i64 = 60_000;

pub const MILLIS_PER_HOUR: i64 = 3_600_000;

pub const MILLIS_PER_DAY: i64 = 86_400_000;

/// No clock reading is later than this many milliseconds after the epoch: the
/// calendar of `chrono` ends with the year 262142.
pub const MAX_CLOCK_MILLIS: i64 = 8_300_000_000_000_000;

/// Reads the system clock through `chrono::Utc::now` and converts the instant with
/// `DateTime::timestamp_millis`.
///
/// Trusted: `Utc::now` measures the time elapsed since the Unix epoch, so the
/// reading is not negative, and it only returns instants that `chrono` can
/// represent, which all lie before `MAX_CLOCK_MILLIS`. Nothing else is claimed: two
/// readings may differ in any way. `Utc::now` itself aborts when the system clock
/// is set before the epoch.
#[verifier::external_body]
pub(crate) fn now_millis() -> (now: i64)
    ensures
        0 <= now <= MAX_CLOCK_MILLIS,
{
    chrono::Utc::now().timestamp_millis()
}

} // verus!
