//! The system clock, read as milliseconds before or after the Unix epoch,
//! and the timestamps that are made of a reading.

use vstd::prelude::*;
use std::time::{Duration, SystemTime, SystemTimeError};

verus! {

/// A point in time of the system clock. Nothing is known of its value.
#[verifier::external_type_specification]
#[verifier::external_body]
pub struct ExSystemTime(SystemTime);

/// The error of `SystemTime::duration_since`: the second point in time is
/// the later one.
#[verifier::external_type_specification]
#[verifier::external_body]
pub struct ExSystemTimeError(SystemTimeError);

/// `SystemTime::now` of std: the present moment. Nothing is claimed of it.
pub assume_specification[ SystemTime::now ]() -> SystemTime;

/// `SystemTime::duration_since` of std: the time from the earlier moment
/// to this one, or an error where the other moment is the later one.
/// Nothing is claimed of either.
pub assume_specification[ SystemTime::duration_since ](
    time: &SystemTime,
    earlier: SystemTime,
) -> Result<Duration, SystemTimeError>;

/// `SystemTimeError::duration` of std: how far the second moment lies
/// after the first. Nothing is claimed of it.
pub assume_specification[ SystemTimeError::duration ](error: &SystemTimeError) -> Duration;

/// The Unix epoch as a point in time of the system clock.
///
/// Hands out the constant `SystemTime::UNIX_EPOCH` of std. Nothing is
/// claimed of it.
#[verifier::external_body]
fn unix_epoch() -> SystemTime {
    SystemTime::UNIX_EPOCH
}

/// What the clock says: the milliseconds since the Unix epoch, or, where
/// the clock stands before the epoch, the milliseconds that are left to it.
#[derive(Debug, Clone, Copy, PartialEq, Eq, Structural)]
pub enum ClockReading {
    /// Milliseconds since the epoch.
    Since(u128),
    /// Milliseconds before the epoch.
    Before(u128),
}

/// The timestamp of a message for a reading of the clock: the
/// milliseconds since the epoch in 64 bits, higher bits dropped; 0 where
/// the clock stands before the epoch.
pub open spec fn timestamp_at(reading: ClockReading) -> u64 {
    match reading {
        ClockReading::Since(millis) => (millis % 0x1_0000_0000_0000_0000u128) as u64,
        ClockReading::Before(_) => 0,
    }
}

/// The creation time of a record for a reading of the clock: the
/// milliseconds since the epoch, negative before it, and held to the
/// range of 64 bits with sign.
pub open spec fn creation_time_at(reading: ClockReading) -> i64 {
    match reading {
        ClockReading::Since(millis) => if millis > i64::MAX as u128 {
            i64::MAX
        } else {
            millis as i64
        },
        ClockReading::Before(millis) => if millis > i64::MAX as u128 {
            (-i64::MAX) as i64
        } else {
            (-(millis as i64)) as i64
        },
    }
}

/// The timestamp of a message for a reading of the clock.
pub fn timestamp_of(reading: ClockReading) -> (stamp: u64)
    ensures
        stamp == timestamp_at(reading),
{
    match reading {
        ClockReading::Since(millis) => (millis % 0x1_0000_0000_0000_0000u128) as u64,
        ClockReading::Before(_) => 0,
    }
}

/// The creation time of a record for a reading of the clock.
pub fn creation_time_of(reading: ClockReading) -> (created_at: i64)
    ensures
        created_at == creation_time_at(reading),
{
    match reading {
        ClockReading::Since(millis) => if millis > i64::MAX as u128 {
            i64::MAX
        } else {
            millis as i64
        },
        ClockReading::Before(millis) => if millis > i64::MAX as u128 {
            -i64::MAX
        } else {
            -(millis as i64)
        },
    }
}

/// Reads the system clock.
pub(crate) fn read_clock() -> ClockReading {
    let now = SystemTime::now();
    match now.duration_since(unix_epoch()) {
        Ok(since) => ClockReading::Since(since.as_millis()),
        Err(before) => ClockReading::Before(before.duration().as_millis()),
    }
}

} // verus!
