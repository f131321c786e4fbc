//! The wall clock.

use vstd::prelude::*;
use vstd::string::to_string_from_display_ensures;

verus! {

/// `std::time::SystemTime`.
#[verifier::external_type_specification]
#[verifier::external_body]
pub struct ExSystemTime(std::time::SystemTime);

/// `std::time::SystemTimeError`.
#[verifier::external_type_specification]
#[verifier::external_body]
pub struct ExSystemTimeError(std::time::SystemTimeError);

/// `std::time::SystemTime::now`. Nothing is claimed of the instant it reads.
pub assume_specification[ std::time::SystemTime::now ]() -> std::time::SystemTime
;

/// The time from the Unix epoch to an instant, or the error for an instant
/// before it.
pub uninterp spec fn span_since_epoch(instant: std::time::SystemTime) -> Result<
    std::time::Duration,
    std::time::SystemTimeError,
>;

/// The time from the Unix epoch to an instant.
///
/// Calls `SystemTime::duration_since` with `UNIX_EPOCH`. Taken on trust: the
/// result is fixed by the instant.
#[verifier::external_body]
fn since_epoch(instant: std::time::SystemTime) -> (r: Result<
    std::time::Duration,
    std::time::SystemTimeError,
>)
    ensures
        r == span_since_epoch(instant),
{
    instant.duration_since(std::time::UNIX_EPOCH)
}

/// The whole microseconds in a span.
pub uninterp spec fn micros_of(span: std::time::Duration) -> nat;

/// The whole microseconds in a span.
///
/// Calls `Duration::as_micros`. Taken on trust: the result is fixed by the
/// span.
#[verifier::external_body]
fn whole_micros(span: std::time::Duration) -> (r: u128)
    ensures
        r == micros_of(span),
{
    span.as_micros()
}

/// What a clock that stands at an instant shows: the whole microseconds since
/// the Unix epoch; nothing for an instant before it.
pub open spec fn micros_at(instant: std::time::SystemTime) -> Option<nat> {
    match span_since_epoch(instant) {
        Ok(span) => Some(micros_of(span)),
        Err(_) => None,
    }
}

/// Whether a reading is that of a clock that stands at an instant: the whole
/// microseconds since the Unix epoch, or how the error for an instant before
/// it is displayed.
pub open spec fn is_reading(instant: std::time::SystemTime, reading: Result<u128, String>) -> bool {
    match span_since_epoch(instant) {
        Ok(span) => reading matches Ok(micros) && micros == micros_of(span),
        Err(e) => reading matches Err(why) && to_string_from_display_ensures(&e, why),
    }
}

/// The reading of a clock that stands at an instant: microseconds since the
/// Unix epoch, or why there are none.
pub fn reading_at(instant: std::time::SystemTime) -> (r: Result<u128, String>)
    ensures
        is_reading(instant, r),
{
    match since_epoch(instant) {
        Ok(span) => Ok(whole_micros(span)),
        Err(e) => Err(e.to_string()),
    }
}

/// One reading of the clock: microseconds since the Unix epoch, or why there
/// is none.
pub fn read_clock() -> (r: Result<u128, String>)
    ensures
        exists|instant: std::time::SystemTime| #[trigger] is_reading(instant, r),
{
    reading_at(std::time::SystemTime::now())
}

/// The low 64 bits of a number, as a signed number.
pub open spec fn wrapped_i64(n: u128) -> i64 {
    n as i64
}

/// What [`now_usec`] makes of what the clock shows.
pub open spec fn usec_shown(shown: Option<nat>) -> i64 {
    match shown {
        Some(micros) => wrapped_i64(micros as u128),
        None => 0,
    }
}

/// Microseconds since the Unix epoch, from a clock reading; 0 when the clock
/// stands before the epoch.
pub fn usec_from_reading(reading: &Result<u128, String>) -> (r: i64)
    ensures
        r == match *reading {
            Ok(micros) => wrapped_i64(micros),
            Err(_) => 0,
        },
{
    match reading {
        Ok(micros) => #[verifier::truncate] (*micros as i64),
        Err(_) => 0,
    }
}

/// Wall-clock microseconds since the Unix epoch.
pub fn now_usec() -> (r: i64)
    ensures
        exists|instant: std::time::SystemTime| r == usec_shown(#[trigger] micros_at(instant)),
{
    let reading = read_clock();
    let ghost instant = choose|instant: std::time::SystemTime| #[trigger]
        is_reading(instant, reading);
    let r = usec_from_reading(&reading);
    assert(r == usec_shown(micros_at(instant)));
    r
}

// ---------------------------------------------------------------------------
// Laws
// ---------------------------------------------------------------------------

/// The clock is read to the microsecond: what it shows is the number of
/// microseconds since the epoch, as long as that fits, and 0 before the epoch.
pub proof fn law_clock_is_read_exactly(
    instant: std::time::SystemTime,
    reading: Result<u128, String>,
)
    ensures
        span_since_epoch(instant) matches Ok(span) ==> micros_at(instant) == Some(micros_of(span)),
        span_since_epoch(instant) is Err ==> micros_at(instant) is None && usec_shown(
            micros_at(instant),
        ) == 0,
        span_since_epoch(instant) matches Ok(span) ==> micros_of(span) <= i64::MAX ==> usec_shown(
            micros_at(instant),
        ) == micros_of(span),
        is_reading(instant, reading) ==> (reading is Ok <==> span_since_epoch(instant) is Ok),
        is_reading(instant, reading) ==> (reading matches Ok(micros) ==> micros_at(instant) == Some(
            micros as nat,
        )),
        is_reading(instant, reading) ==> (reading matches Err(why)
            ==> to_string_from_display_ensures(&span_since_epoch(instant)->Err_0, why)),
{
}

/// A number of microseconds that fits is kept as it is.
pub proof fn law_microseconds_are_kept(n: u128)
    ensures
        n <= i64::MAX ==> wrapped_i64(n) == n,
{
}

} // verus!
