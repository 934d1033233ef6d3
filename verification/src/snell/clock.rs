//! Wall-clock time.

use std::time::{Duration, SystemTime, SystemTimeError};
use vstd::prelude::*;

use crate::num::min_int;

verus! {

#[verifier::external_type_specification]
#[verifier::external_body]
pub struct ExSystemTime(SystemTime);

#[verifier::external_type_specification]
#[verifier::external_body]
pub struct ExSystemTimeError(SystemTimeError);

/// `SystemTime::now` reads the system clock: nothing is claimed of the result.
pub assume_specification[ SystemTime::now ]() -> SystemTime
;

/// `SystemTime::duration_since` fails where the clock has gone backwards:
/// nothing is claimed of the result.
pub assume_specification[ SystemTime::duration_since ](
    now: &SystemTime,
    earlier: SystemTime,
) -> Result<Duration, SystemTimeError>
;

/// `SystemTime::UNIX_EPOCH` is the start of 1970: nothing is claimed of it.
#[verifier::external_body]
fn unix_epoch() -> SystemTime {
    SystemTime::UNIX_EPOCH
}

/// A span as a signed number, cut off where it would not fit.
fn signed(nanos: u128) -> (number: i128)
    ensures
        number == min_int(nanos as int, i128::MAX as int),
{
    if nanos <= i128::MAX as u128 {
        nanos as i128
    } else {
        i128::MAX
    }
}

/// The present moment, in nanoseconds since the start of 1970; less than zero
/// before it. The system clock decides: nothing is claimed of the number.
pub(crate) fn unix_now() -> i128 {
    let now = SystemTime::now();
    let epoch = unix_epoch();
    match now.duration_since(epoch) {
        Ok(span) => signed(span.as_nanos()),
        Err(_) => match epoch.duration_since(now) {
            Ok(span) => -signed(span.as_nanos()),
            Err(_) => 0,
        },
    }
}

/// Whole seconds from one moment to a later one, both in nanoseconds; none if
/// the clock has gone backwards.
pub open spec fn seconds_between(earlier: i128, now: i128) -> Option<u64> {
    if now < earlier {
        None
    } else {
        Some(min_int((now - earlier) / 1_000_000_000, u64::MAX as int) as u64)
    }
}

/// Whole seconds since an earlier moment; none if there was no such moment or
/// the clock has gone backwards since.
pub(crate) fn seconds_since(now: i128, earlier: Option<i128>) -> (elapsed: Option<u64>)
    ensures
        elapsed == match earlier {
            Some(moment) => seconds_between(moment, now),
            None => None,
        },
{
    let moment: i128 = match earlier {
        Some(moment) => moment,
        None => {
            return None;
        },
    };
    if now < moment {
        return None;
    }
    match now.checked_sub(moment) {
        Some(span) => {
            let seconds: i128 = span / 1_000_000_000;
            if seconds <= u64::MAX as i128 {
                Some(seconds as u64)
            } else {
                Some(u64::MAX)
            }
        },
        None => Some(u64::MAX),
    }
}

} // verus!
