//! The time of day, in whole seconds.

use std::time::Duration;
use std::time::SystemTime;
use std::time::SystemTimeError;
use vstd::prelude::*;

verus! {

/// A point in time, as the system's clock tells it.
#[verifier::external_type_specification]
#[verifier::external_body]
pub struct ExSystemTime(SystemTime);

/// What `SystemTime::duration_since` returns for a time before the other.
#[verifier::external_type_specification]
#[verifier::external_body]
pub struct ExSystemTimeError(SystemTimeError);

/// `SystemTime::now` reads the system's clock. Nothing is claimed of what it tells.
pub assume_specification[ SystemTime::now ]() -> SystemTime;

/// Calls `SystemTime::duration_since` with the Unix epoch, which fails for a time before it. Both
/// its argument and its result stand for what the clock tells, of which nothing is claimed.
#[verifier::external_body]
fn since_epoch(t: SystemTime) -> Result<Duration, SystemTimeError> {
    t.duration_since(SystemTime::UNIX_EPOCH)
}

/// `Duration::as_secs` gives the whole seconds of a duration. Here the duration stands for what
/// the clock tells, so nothing is claimed of it.
pub assume_specification[ Duration::as_secs ](d: &Duration) -> u64;

/// The seconds that passed, zero where the clock stands before the epoch.
pub fn seconds_passed(since: Option<u64>) -> (r: u64)
    ensures
        r == (match since {
            Some(n) => n,
            None => 0,
        }),
{
    match since {
        Some(n) => n,
        None => 0,
    }
}

/// Whole seconds since the Unix epoch, zero while the clock stands before it.
pub fn now_secs() -> u64 {
    let since: Option<u64> = match since_epoch(SystemTime::now()) {
        Ok(d) => Some(d.as_secs()),
        Err(_) => None,
    };
    seconds_passed(since)
}

} // verus!
