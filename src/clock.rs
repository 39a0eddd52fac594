use vstd::prelude::*;

use std::time::{Duration, SystemTime, SystemTimeError};

verus! {

#[verifier::external_type_specification]
#[verifier::external_body]
pub struct ExSystemTime(SystemTime);

#[verifier::external_type_specification]
#[verifier::external_body]
pub struct ExSystemTimeError(SystemTimeError);

/// Relies on std's `SystemTime::now`: the wall-clock time; nothing is known of it.
pub assume_specification[ SystemTime::now ]() -> SystemTime;

/// Relies on std's `SystemTime::duration_since`: `Err` when `earlier` is later.
pub assume_specification[ SystemTime::duration_since ](
    this: &SystemTime,
    earlier: SystemTime,
) -> Result<Duration, SystemTimeError>;

/// Relies on std's `Duration::as_millis`: the whole milliseconds of the duration.
pub assume_specification[ Duration::as_millis ](this: &Duration) -> u128;

/// Relies on std's `UNIX_EPOCH` constant.
#[verifier::external_body]
fn unix_epoch() -> SystemTime {
    std::time::UNIX_EPOCH
}

/// What a reading of the clock gives, from the whole milliseconds elapsed
/// since the Unix epoch (`None` when the clock is before the epoch).
pub open spec fn millis_of(since: Option<u128>) -> i64 {
    match since {
        Some(ms) => if ms > i64::MAX as u128 {
            i64::MAX
        } else {
            ms as i64
        },
        None => 0,
    }
}

/// Milliseconds as an `i64`: a clock before the epoch reads as 0, one too far
/// ahead for an `i64` reads as `i64::MAX`.
pub fn millis_from(since: Option<u128>) -> (r: i64)
    ensures
        r == millis_of(since),
{
    match since {
        Some(ms) => {
            if ms > i64::MAX as u128 {
                i64::MAX
            } else {
                ms as i64
            }
        },
        None => 0,
    }
}

/// Milliseconds since the Unix epoch, read from the system clock.
pub fn current_milliseconds() -> (r: i64)
    ensures
        exists|since: Option<u128>| r == millis_of(since),
        r >= 0,
{
    let now = SystemTime::now();
    let since = match now.duration_since(unix_epoch()) {
        Ok(d) => Some(d.as_millis()),
        Err(_) => None,
    };
    millis_from(since)
}

} // verus!
