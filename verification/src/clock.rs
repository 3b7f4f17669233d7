//! Wall-clock time since the Unix epoch.
use std::time::{Duration, SystemTime, SystemTimeError, UNIX_EPOCH};
use vstd::prelude::*;

verus! {

/// `std::time::SystemTime`, carried opaquely.
#[verifier::external_type_specification]
#[verifier::external_body]
pub struct ExSystemTime(SystemTime);

/// `std::time::SystemTimeError`, carried opaquely.
#[verifier::external_type_specification]
#[verifier::external_body]
pub struct ExSystemTimeError(SystemTimeError);

/// Calls `SystemTime::now`. The result is the machine's clock: nothing is
/// promised of it.
#[verifier::external_body]
fn system_now() -> (t: SystemTime) {
    SystemTime::now()
}

/// Calls `SystemTime::duration_since` with `UNIX_EPOCH`: the time elapsed
/// since the epoch, or an error when `t` lies before it. Nothing is promised
/// of the duration.
#[verifier::external_body]
fn elapsed_since_epoch(t: &SystemTime) -> (r: Result<Duration, SystemTimeError>) {
    t.duration_since(UNIX_EPOCH)
}

/// What `Duration::as_secs` returns for `d`: its whole seconds.
pub uninterp spec fn duration_whole_secs(d: Duration) -> u64;

/// What `Duration::as_millis` returns for `d`: its whole milliseconds.
pub uninterp spec fn duration_whole_millis(d: Duration) -> u128;

/// Calls `Duration::as_secs`: the whole seconds of `d`, a function of `d`
/// alone.
#[verifier::external_body]
fn whole_secs(d: &Duration) -> (s: u64)
    ensures
        s == duration_whole_secs(*d),
{
    d.as_secs()
}

/// Calls `Duration::as_millis`: the whole milliseconds of `d`, a function of
/// `d` alone.
#[verifier::external_body]
fn whole_millis(d: &Duration) -> (ms: u128)
    ensures
        ms == duration_whole_millis(*d),
{
    d.as_millis()
}

/// The whole seconds of a reading of the time since the epoch; 0 when the
/// clock read earlier than the epoch.
pub open spec fn elapsed_secs(elapsed: Result<Duration, SystemTimeError>) -> u64 {
    match elapsed {
        Ok(d) => duration_whole_secs(d),
        Err(_) => 0,
    }
}

/// The whole milliseconds of a reading of the time since the epoch; 0 when
/// the clock read earlier than the epoch.
pub open spec fn elapsed_millis(elapsed: Result<Duration, SystemTimeError>) -> u128 {
    match elapsed {
        Ok(d) => duration_whole_millis(d),
        Err(_) => 0,
    }
}

/// Whole seconds of a reading of the time since the epoch, 0 for a clock
/// that read earlier than the epoch.
pub fn secs_from_elapsed(elapsed: &Result<Duration, SystemTimeError>) -> (s: u64)
    ensures
        s == elapsed_secs(*elapsed),
{
    match elapsed {
        Ok(d) => whole_secs(d),
        Err(_) => 0,
    }
}

/// Whole milliseconds of a reading of the time since the epoch, 0 for a
/// clock that read earlier than the epoch.
pub fn millis_from_elapsed(elapsed: &Result<Duration, SystemTimeError>) -> (ms: u128)
    ensures
        ms == elapsed_millis(*elapsed),
{
    match elapsed {
        Ok(d) => whole_millis(d),
        Err(_) => 0,
    }
}

/// Whole seconds since the Unix epoch; 0 when the clock reads earlier. The
/// reading itself is the machine's clock.
pub fn secs_since_epoch() -> (s: u64)
    ensures
        exists|elapsed: Result<Duration, SystemTimeError>| s == elapsed_secs(elapsed),
{
    let now = system_now();
    let elapsed = elapsed_since_epoch(&now);
    let s = secs_from_elapsed(&elapsed);
    assert(s == elapsed_secs(elapsed));
    s
}

/// Whole milliseconds since the Unix epoch; 0 when the clock reads earlier.
/// The reading itself is the machine's clock.
pub fn millis_since_epoch() -> (ms: u128)
    ensures
        exists|elapsed: Result<Duration, SystemTimeError>| ms == elapsed_millis(elapsed),
{
    let now = system_now();
    let elapsed = elapsed_since_epoch(&now);
    let ms = millis_from_elapsed(&elapsed);
    assert(ms == elapsed_millis(elapsed));
    ms
}

} // verus!
