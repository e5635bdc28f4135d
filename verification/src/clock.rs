//! The wall clock, in milliseconds.
use std::time::{Duration, SystemTime, SystemTimeError, UNIX_EPOCH};
use vstd::prelude::*;

verus! {

/// A reading of the system clock.
#[verifier::external_type_specification]
#[verifier::external_body]
pub struct ExSystemTime(std::time::SystemTime);

/// The error for a reading that lies before the time it is measured from.
#[verifier::external_type_specification]
#[verifier::external_body]
pub struct ExSystemTimeError(std::time::SystemTimeError);

/// `SystemTime::now` reads the system clock, of which nothing is known in advance.
pub assume_specification[ std::time::SystemTime::now ]() -> (t: std::time::SystemTime)
;

/// `SystemTime::duration_since` the Unix epoch; it fails where the clock stands before the epoch.
/// Readings are opaque, so nothing is said of the result.
#[verifier::external_body]
fn since_epoch(t: SystemTime) -> (r: Result<Duration, SystemTimeError>) {
    t.duration_since(UNIX_EPOCH)
}

/// `Duration::as_millis` is the number of whole milliseconds of a span. Spans are opaque, so
/// nothing is said of the result.
pub assume_specification[ std::time::Duration::as_millis ](d: &std::time::Duration) -> (ms: u128)
;

/// Whether `since` is what measuring the reading `t` from the Unix epoch gives.
pub closed spec fn measures(t: SystemTime, since: Result<Duration, SystemTimeError>) -> bool {
    call_ensures(since_epoch, (t,), since)
}

/// Nothing but the call that measures a reading gives a measurement of it.
proof fn lemma_measurements_come_from_measuring(
    t: SystemTime,
    since: Result<Duration, SystemTimeError>,
)
    ensures
        measures(t, since) ==> call_ensures(since_epoch, (t,), since),
{
}

/// Calls `f`: the result is one that `f` gives.
pub fn ask<A, F: Fn() -> A>(f: F) -> (r: A)
    requires
        call_requires(f, ()),
    ensures
        call_ensures(f, (), r),
{
    f()
}

/// Calls `f` on `b`: the result is one that `f` gives for it.
pub fn ask_of<A, B, F: Fn(B) -> A>(f: F, b: B) -> (r: A)
    requires
        call_requires(f, (b,)),
    ensures
        call_ensures(f, (b,), r),
{
    f(b)
}

/// The clock value for a time of `elapsed` milliseconds since the epoch: its low 64 bits, and 0
/// for a time before the epoch.
pub open spec fn clock_value(elapsed: Option<u128>) -> int {
    match elapsed {
        Some(ms) => ms as int % 0x1_0000_0000_0000_0000,
        None => 0,
    }
}

/// The clock value for a time of `elapsed` milliseconds since the epoch, if the clock stands
/// after it.
pub fn clock_ms(elapsed: Option<u128>) -> (r: u64)
    ensures
        r == clock_value(elapsed),
        elapsed matches Some(ms) ==> r == ms as int % 0x1_0000_0000_0000_0000,
        elapsed is None ==> r == 0,
{
    match elapsed {
        Some(ms) => {
            assert(ms as u64 == ms % 0x1_0000_0000_0000_0000) by (bit_vector);
            ms as u64
        },
        None => 0,
    }
}

/// The milliseconds since the Unix epoch, and 0 where the clock stands before it. Which value
/// comes out depends on the clock alone.
pub fn now_ms() -> (r: u64)
    ensures
        exists|elapsed: Option<u128>| r == #[trigger] clock_value(elapsed),
        exists|t: SystemTime, since: Result<Duration, SystemTimeError>|
            #[trigger] call_ensures(SystemTime::now, (), t) && #[trigger] measures(t, since)
                && match since {
                Ok(d) => exists|ms: u128| #[trigger]
                    call_ensures(Duration::as_millis, (&d,), ms) && r == ms as int
                        % 0x1_0000_0000_0000_0000,
                Err(_) => r == 0,
            },
{
    let t = ask(SystemTime::now);
    let since = ask_of(since_epoch, t);
    assert(measures(t, since));
    match since {
        Ok(d) => {
            let ms: u128 = ask_of(Duration::as_millis, &d);
            assert(clock_value(Some(ms)) == ms as int % 0x1_0000_0000_0000_0000);
            clock_ms(Some(ms))
        },
        Err(_) => clock_ms(None),
    }
}

} // verus!
