//! The wall clock.
use vstd::prelude::*;

use std::time::{Duration, SystemTime, SystemTimeError, UNIX_EPOCH};

verus! {

/// A reading of the wall clock.
#[verifier::external_type_specification]
#[verifier::external_body]
pub struct ExSystemTime(std::time::SystemTime);

/// Why a span between two readings is none: the second is earlier.
#[verifier::external_type_specification]
#[verifier::external_body]
pub struct ExSystemTimeError(std::time::SystemTimeError);

/// `SystemTime::now`. Nothing is claimed of the reading, which every call may
/// choose anew.
pub assume_specification[ std::time::SystemTime::now ]() -> std::time::SystemTime;

/// `Duration::as_millis`. Nothing is claimed of the number: the spans it is
/// asked of come from the wall clock.
pub assume_specification[ std::time::Duration::as_millis ](span: &std::time::Duration) -> u128;

/// Calls `SystemTime::duration_since` with the Unix epoch. Nothing is claimed of
/// the span.
#[verifier::external_body]
pub(crate) fn since_epoch(reading: &SystemTime) -> (span: Result<Duration, SystemTimeError>) {
    reading.duration_since(UNIX_EPOCH)
}

/// The time stamp of a moment that lies this many milliseconds behind the Unix
/// epoch, or before it: the lower 64 bits of the number, and zero before the
/// epoch.
pub fn stamp_of(elapsed_ms: Option<u128>) -> (stamp: u64)
    ensures
        match elapsed_ms {
            Some(ms) => stamp == ms % 0x1_0000_0000_0000_0000,
            None => stamp == 0,
        },
{
    match elapsed_ms {
        Some(ms) => {
            assert(ms as u64 == ms % 0x1_0000_0000_0000_0000u128) by (bit_vector);
            #[verifier::truncate]
            (ms as u64)
        },
        None => 0,
    }
}

/// Whether the wall clock gave this time stamp: some reading that
/// `SystemTime::now` returned, its span since the Unix epoch and the number of
/// milliseconds in that span made it up.
pub open(crate) spec fn is_clock_reading(now: u64) -> bool {
    exists|reading: SystemTime, span: Result<Duration, SystemTimeError>|
        {
            &&& #[trigger] call_ensures(SystemTime::now, (), reading)
            &&& #[trigger] call_ensures(since_epoch, (&reading,), span)
            &&& match span {
                Ok(elapsed) => exists|ms: u128|
                    #[trigger] call_ensures(Duration::as_millis, (&elapsed,), ms) && now == ms
                        % 0x1_0000_0000_0000_0000,
                Err(_) => now == 0,
            }
        }
}

/// The current time in Unix milliseconds: what [`stamp_of`] makes of a reading
/// of the wall clock. As every reading is possible, so is every stamp; claimed is
/// that the clock gave it.
pub(crate) fn now_ms() -> (now: u64)
    ensures
        is_clock_reading(now),
{
    let reading = SystemTime::now();
    let elapsed_ms = match since_epoch(&reading) {
        Ok(span) => Some(span.as_millis()),
        Err(_) => None,
    };
    stamp_of(elapsed_ms)
}

/// A time stamp of the clock goes back to a reading of it: it is what the reading
/// lies behind the Unix epoch in milliseconds, or zero if it does not.
pub(crate) proof fn clock_readings_come_from_the_clock(now: u64)
    requires
        is_clock_reading(now),
    ensures
        exists|reading: SystemTime, span: Result<Duration, SystemTimeError>| #[trigger]
            call_ensures(SystemTime::now, (), reading) && #[trigger] call_ensures(
                since_epoch,
                (&reading,),
                span,
            ) && match span {
                Ok(elapsed) => exists|ms: u128| #[trigger]
                    call_ensures(Duration::as_millis, (&elapsed,), ms) && now == ms as u64,
                Err(_) => now == 0,
            },
{
    assert forall|ms: u128| #[trigger] (ms as u64) == ms % 0x1_0000_0000_0000_0000 by {
        assert(ms as u64 == ms % 0x1_0000_0000_0000_0000u128) by (bit_vector);
    }
}

/// No time stamp of the clock without a reading of it, and none but zero without
/// a number of milliseconds that it holds the lower bits of.
pub proof fn a_time_stamp_takes_a_reading(now: u64)
    requires
        is_clock_reading(now),
    ensures
        exists|reading: SystemTime| call_ensures(SystemTime::now, (), reading),
        now != 0 ==> exists|elapsed: Duration, ms: u128| #[trigger]
            call_ensures(Duration::as_millis, (&elapsed,), ms) && now == ms as u64,
{
    clock_readings_come_from_the_clock(now);
}

} // verus!
