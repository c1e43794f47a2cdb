//! Wall-clock access. What the clock reads is outside anything the library
//! can state, so nothing is promised of it beyond its type.

use std::time::{Duration, Instant, SystemTime};
use vstd::prelude::*;

verus! {

#[verifier::external_type_specification]
#[verifier::external_body]
pub struct ExSystemTime(SystemTime);

#[verifier::external_type_specification]
#[verifier::external_body]
pub struct ExInstant(Instant);

/// `SystemTime::now`: the current wall-clock time. Nothing is stated of it.
#[verifier::external_body]
fn system_time_now() -> SystemTime {
    SystemTime::now()
}

/// `SystemTime::duration_since(UNIX_EPOCH)`, `None` where the clock reads
/// before the epoch. Nothing is stated of the duration.
#[verifier::external_body]
fn since_unix_epoch(t: &SystemTime) -> Option<Duration> {
    t.duration_since(std::time::UNIX_EPOCH).ok()
}

/// `Duration::as_millis`: the whole milliseconds of a duration. The duration
/// is opaque here, so nothing is stated of the number.
#[verifier::external_body]
fn duration_as_millis(d: &Duration) -> u128 {
    d.as_millis()
}

/// The duration that `Duration::from_secs` builds from a number of seconds.
pub uninterp spec fn duration_of_secs(secs: u64) -> Duration;

/// `Duration::from_secs`: the result is the duration of `secs` whole seconds,
/// the same for the same argument.
#[verifier::external_body]
pub(crate) fn duration_from_secs(secs: u64) -> (d: Duration)
    ensures
        d == duration_of_secs(secs),
{
    Duration::from_secs(secs)
}

/// The milliseconds a clock reading stands for: the whole milliseconds since
/// the Unix epoch truncated to `i64` (as `as i64` does), or 0 when the clock
/// read before the epoch.
pub open spec fn millis_value(elapsed_ms: Option<u128>) -> i64 {
    match elapsed_ms {
        Some(ms) => ms as i64,
        None => 0,
    }
}

pub fn millis_since_epoch(elapsed_ms: Option<u128>) -> (r: i64)
    ensures
        r == millis_value(elapsed_ms),
{
    match elapsed_ms {
        Some(ms) => ms as i64,
        None => 0,
    }
}

/// Milliseconds since the Unix epoch, truncated to `i64`; 0 when the clock
/// reads before the epoch. What the clock reads is not stated, so neither is
/// the number.
pub fn now_ms() -> i64 {
    let now = system_time_now();
    let elapsed_ms = match since_unix_epoch(&now) {
        Some(elapsed) => Some(duration_as_millis(&elapsed)),
        None => None,
    };
    millis_since_epoch(elapsed_ms)
}

} // verus!
