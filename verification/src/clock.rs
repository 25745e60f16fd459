//! The time of day.
use vstd::prelude::*;

verus! {

/// `std::time::SystemTime`.
#[verifier::external_type_specification]
#[verifier::external_body]
pub struct ExSystemTime(std::time::SystemTime);

/// `std::time::SystemTimeError`.
#[verifier::external_type_specification]
#[verifier::external_body]
pub struct ExSystemTimeError(std::time::SystemTimeError);

/// The nanoseconds from the beginning of Unix time to a time; negative before it.
pub uninterp spec fn unix_nanos(time: std::time::SystemTime) -> int;

/// The nanoseconds in a duration.
pub uninterp spec fn duration_nanos(duration: std::time::Duration) -> nat;

/// The number of nanoseconds in a second.
pub const NANOS_PER_SEC: u64 = 1_000_000_000;

/// `std::time::SystemTime::now` reads the clock: any time may come back.
pub assume_specification[ std::time::SystemTime::now ]() -> (r: std::time::SystemTime)
;

/// Calls `std::time::SystemTime::duration_since` with the beginning of Unix time: it fails exactly on
/// a time before that, and gives the time between them otherwise.
#[verifier::external_body]
fn since_epoch(time: std::time::SystemTime) -> (r: Result<std::time::Duration, std::time::SystemTimeError>)
    ensures
        r is Ok <==> unix_nanos(time) >= 0,
        r matches Ok(elapsed) ==> duration_nanos(elapsed) == unix_nanos(time),
{
    time.duration_since(std::time::UNIX_EPOCH)
}

/// `std::time::Duration::as_secs` counts whole seconds and drops the rest.
pub assume_specification[ std::time::Duration::as_secs ](duration: &std::time::Duration) -> (r: u64)
    ensures
        r == duration_nanos(*duration) / NANOS_PER_SEC as nat,
;

/// The whole seconds from the beginning of Unix time to a time; `None` before it.
pub open spec fn unix_secs(time: std::time::SystemTime) -> Option<int> {
    if unix_nanos(time) >= 0 {
        Some(unix_nanos(time) / NANOS_PER_SEC as int)
    } else {
        None
    }
}

/// Whether `secs` are those of a time, or are missing because it has none.
pub open spec fn is_reading(secs: Option<u64>, time: std::time::SystemTime) -> bool {
    &&& secs is Some <==> unix_secs(time) is Some
    &&& secs matches Some(n) ==> unix_secs(time) == Some(n as int)
}

/// The whole seconds from the beginning of Unix time to a time; `None` before it.
pub fn secs_at(time: std::time::SystemTime) -> (r: Option<u64>)
    ensures
        is_reading(r, time),
{
    match since_epoch(time) {
        Ok(elapsed) => Some(elapsed.as_secs()),
        Err(_) => None,
    }
}

/// The seconds since the beginning of Unix time, by the system's clock; `None` if the clock stands
/// before it. Which time the clock shows is not stated.
pub fn now_secs() -> (r: Option<u64>)
    ensures
        exists|time: std::time::SystemTime| is_reading(r, time),
{
    let time = std::time::SystemTime::now();
    let r = secs_at(time);
    r
}

/// A reading counts whole seconds: the time lies in the second that it tells, and there is none exactly
/// before the beginning of Unix time.
pub proof fn law_reading_is_the_second(secs: Option<u64>, time: std::time::SystemTime)
    requires
        is_reading(secs, time),
    ensures
        secs is None <==> unix_nanos(time) < 0,
        secs matches Some(n) ==> n * 1_000_000_000 <= unix_nanos(time) < (n + 1) * 1_000_000_000,
{
}

} // verus!
