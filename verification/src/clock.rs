//! The wall clock, as whole seconds since the Unix epoch.

use std::time::Duration;
use std::time::SystemTime;
use std::time::SystemTimeError;
use vstd::prelude::*;

verus! {

#[verifier::external_type_specification]
#[verifier::external_body]
pub struct ExSystemTime(SystemTime);

#[verifier::external_type_specification]
#[verifier::external_body]
pub struct ExSystemTimeError(SystemTimeError);

/// What `SystemTime::duration_since` gives for a clock reading and the Unix epoch.
pub uninterp spec fn since_epoch(reading: SystemTime) -> Result<Duration, SystemTimeError>;

/// What `Duration::as_secs` gives for a span of time.
pub uninterp spec fn whole_seconds(span: Duration) -> u64;

/// `SystemTime::now`, the system clock. Nothing is claimed of what it reads.
#[verifier::external_body]
fn read_clock() -> (reading: SystemTime) {
    SystemTime::now()
}

/// `Duration::as_secs`: the whole seconds of a span are determined by the span.
pub assume_specification[ Duration::as_secs ](span: &Duration) -> (secs: u64)
    ensures
        secs == whole_seconds(*span),
;

/// `SystemTime::duration_since`, applied to the Unix epoch. The span, or the error for a reading
/// from before the epoch, is determined by the reading.
#[verifier::external_body]
fn elapsed_since_epoch(reading: SystemTime) -> (elapsed: Result<Duration, SystemTimeError>)
    ensures
        elapsed == since_epoch(reading),
{
    reading.duration_since(SystemTime::UNIX_EPOCH)
}

/// The time that a clock reading stands for: its whole seconds since the epoch, and 0 for a
/// reading from before the epoch.
pub open spec fn unix_time(reading: SystemTime) -> u64 {
    seconds_of(
        match since_epoch(reading) {
            Ok(span) => Some(whole_seconds(span)),
            Err(_) => None,
        },
    )
}

/// The time for a number of elapsed seconds, where `None` stands for a clock set before the epoch.
pub open spec fn seconds_of(elapsed: Option<u64>) -> u64 {
    match elapsed {
        Some(secs) => secs,
        None => 0,
    }
}

/// The time for a number of elapsed seconds: that number, or 0 where the clock is set before the
/// epoch and there is none.
pub fn unix_seconds(elapsed: Option<u64>) -> (secs: u64)
    ensures
        secs == seconds_of(elapsed),
{
    match elapsed {
        Some(secs) => secs,
        None => 0,
    }
}

/// The current time in seconds since the Unix epoch, 0 on a clock set before it.
pub fn now() -> (secs: u64)
    ensures
        exists|reading: SystemTime| secs == #[trigger] unix_time(reading),
{
    let reading = read_clock();
    let elapsed = match elapsed_since_epoch(reading) {
        Ok(span) => Some(span.as_secs()),
        Err(_) => None,
    };
    let secs: u64 = unix_seconds(elapsed);
    assert(secs == unix_time(reading));
    secs
}

} // verus!
