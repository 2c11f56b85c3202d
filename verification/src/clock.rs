//! Wall-clock time, and the little randomness that is drawn from it.

use std::time::Duration;
use std::time::SystemTime;
use std::time::SystemTimeError;
use std::time::UNIX_EPOCH;
use vstd::prelude::*;

verus! {

#[verifier::external_type_specification]
#[verifier::external_body]
pub struct ExSystemTime(SystemTime);

#[verifier::external_type_specification]
#[verifier::external_body]
pub struct ExSystemTimeError(SystemTimeError);

/// `SystemTime::now`: the current reading of the system clock.  Nothing is
/// known of it beforehand.
#[verifier::external_body]
fn now() -> (time: SystemTime) {
    SystemTime::now()
}

/// `SystemTime::duration_since` with `UNIX_EPOCH`: how far `time` lies after
/// the epoch, or an error if it lies before.
#[verifier::external_body]
fn since_epoch(time: &SystemTime) -> (elapsed: Result<Duration, SystemTimeError>) {
    time.duration_since(UNIX_EPOCH)
}

/// `Duration::as_millis`: the whole milliseconds in `elapsed`.
#[verifier::external_body]
fn as_millis(elapsed: &Duration) -> (millis: u128) {
    elapsed.as_millis()
}

/// `Duration::subsec_nanos`: the part of `elapsed` below one second, in
/// nanoseconds, which is always less than a thousand million.
#[verifier::external_body]
fn subsec_nanos(elapsed: &Duration) -> (nanos: u32)
    ensures
        nanos < 1_000_000_000,
{
    elapsed.subsec_nanos()
}

/// Milliseconds since the Unix epoch by the system clock; zero if the clock
/// stands before the epoch.
pub fn get_time() -> (millis: u128) {
    let time = now();
    match since_epoch(&time) {
        Ok(elapsed) => as_millis(&elapsed),
        Err(_) => 0,
    }
}

/// A number that is hard to predict: the nanoseconds of the current second;
/// zero if the clock stands before the epoch.
pub fn random_number() -> (number: usize)
    ensures
        number < 1_000_000_000,
{
    let time = now();
    match since_epoch(&time) {
        Ok(elapsed) => subsec_nanos(&elapsed) as usize,
        Err(_) => 0,
    }
}

} // verus!
