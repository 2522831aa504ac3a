use vstd::prelude::*;

use std::time::{Duration, SystemTime, UNIX_EPOCH};

verus! {

#[verifier::external_type_specification]
#[verifier::external_body]
pub struct ExSystemTime(SystemTime);

/// Relies on std's `SystemTime::now`: the current wall-clock time.
pub assume_specification[ SystemTime::now ]() -> SystemTime;

/// Relies on std's `Duration::as_secs`: whole seconds of a duration.
pub assume_specification[ Duration::as_secs ](d: &Duration) -> u64;

/// Relies on std's `Duration::as_millis`: whole milliseconds of a duration.
pub assume_specification[ Duration::as_millis ](d: &Duration) -> u128;

/// Relies on std's `SystemTime::duration_since`, taken from the Unix epoch;
/// `None` where `t` lies before it.
#[verifier::external_body]
fn since_epoch(t: &SystemTime) -> Option<Duration> {
    t.duration_since(UNIX_EPOCH).ok()
}

/// Current Unix time in seconds; zero where the clock reads before 1970.
pub fn timestamp_as_secs() -> u64 {
    match since_epoch(&SystemTime::now()) {
        Some(d) => d.as_secs(),
        None => 0,
    }
}

/// Current Unix time in milliseconds; zero where the clock reads before 1970.
pub fn timestamp_as_millis() -> u128 {
    match since_epoch(&SystemTime::now()) {
        Some(d) => d.as_millis(),
        None => 0,
    }
}

} // verus!
