//! The wall clock, in Unix milliseconds.
use std::time::{Duration, SystemTime, SystemTimeError};
use vstd::prelude::*;

verus! {

/// A moment on the system clock.
#[verifier::external_type_specification]
#[verifier::external_body]
pub struct ExSystemTime(std::time::SystemTime);

/// How far a moment lies before the one it was measured from.
#[verifier::external_type_specification]
#[verifier::external_body]
pub struct ExSystemTimeError(std::time::SystemTimeError);

/// `SystemTime::elapsed`: the time from a moment until now, or an error where
/// the moment lies ahead. Both depend on the clock, so nothing is said of them.
pub assume_specification[ std::time::SystemTime::elapsed ](moment: &SystemTime) -> (elapsed: Result<
    Duration,
    SystemTimeError,
>);

/// `Duration::as_millis`: the whole milliseconds of a duration. Nothing more is
/// said of the number: the durations here come from the clock.
pub assume_specification[ std::time::Duration::as_millis ](duration: &Duration) -> (millis: u128);

/// `SystemTime::UNIX_EPOCH`, the moment from which Unix time counts.
#[verifier::external_body]
fn unix_epoch() -> SystemTime {
    SystemTime::UNIX_EPOCH
}

/// A number of milliseconds since the Unix epoch in the 64 bits in which all
/// tables hold times.
pub fn unix_ms(since_epoch: u128) -> (ms: i64)
    ensures
        ms == since_epoch as i64,
        since_epoch <= i64::MAX ==> ms == since_epoch,
{
    #[verifier::truncate] (since_epoch as i64)
}

/// Whether `now` is what a reading of the clock gives: the milliseconds that have
/// elapsed since the Unix epoch, in 64 bits, or nothing where none could be
/// measured because the epoch lies ahead.
pub closed spec fn is_reading(now: Option<i64>) -> bool {
    exists|epoch: SystemTime, elapsed: Result<Duration, SystemTimeError>|
        {
            &&& call_ensures(unix_epoch, (), epoch)
            &&& #[trigger] call_ensures(SystemTime::elapsed, (&epoch,), elapsed)
            &&& match elapsed {
                Ok(since_epoch) => exists|millis: u128| #[trigger]
                    call_ensures(Duration::as_millis, (&since_epoch,), millis) && now == Some(
                        millis as i64,
                    ),
                Err(_) => now is None,
            }
        }
}

/// Now, in Unix milliseconds; nothing where the clock stands before the epoch.
pub fn now_ms() -> (now: Option<i64>)
    ensures
        is_reading(now),
{
    match unix_epoch().elapsed() {
        Ok(since_epoch) => Some(unix_ms(since_epoch.as_millis())),
        Err(_) => None,
    }
}

/// A time that fits in 64 bits is held as it is; beyond that, whole multiples of
/// the 64-bit range are lost and nothing else.
pub proof fn law_times_wrap_at_64_bits(since_epoch: u128, ms: i64)
    requires
        call_ensures(unix_ms, (since_epoch,), ms),
    ensures
        since_epoch <= i64::MAX ==> ms == since_epoch,
        (since_epoch - ms) % 0x1_0000_0000_0000_0000 == 0,
{
    assert((since_epoch - (since_epoch as i64)) % 0x1_0000_0000_0000_0000 == 0) by (bit_vector);
}

/// What is read is the time that a clock says has elapsed since some moment, to
/// the millisecond; nothing is read only where the clock cannot say.
pub proof fn law_a_reading_is_the_elapsed_time(now: Option<i64>)
    requires
        call_ensures(now_ms, (), now),
    ensures
        exists|moment: SystemTime, elapsed: Result<Duration, SystemTimeError>| #[trigger]
            call_ensures(SystemTime::elapsed, (&moment,), elapsed) && match elapsed {
                Ok(since) => exists|millis: u128| #[trigger]
                    call_ensures(Duration::as_millis, (&since,), millis) && now is Some && (
                    millis <= i64::MAX ==> now == Some(millis as i64)),
                Err(_) => now is None,
            },
{
}

} // verus!
