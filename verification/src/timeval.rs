//! `Grpc\Timeval`: points in time and spans, in microseconds.

use crate::clock::{is_reading, micros_at, read_clock, span_since_epoch};
use crate::error::{default_exception, exception, invalid_argument, invalid_argument_view};
use crate::error::{ExceptionClass, ExceptionView, PhpException};
use crate::value::PhpValue;
use vstd::prelude::*;
use vstd::string::to_string_from_display_ensures;

verus! {

/// A number brought into the range of `i64`.
pub open spec fn clamped(n: int) -> i64 {
    if n > i64::MAX {
        i64::MAX
    } else if n < i64::MIN {
        i64::MIN
    } else {
        n as i64
    }
}

/// The distance of a number from zero.
pub open spec fn magnitude(n: int) -> int {
    if n < 0 {
        -n
    } else {
        n
    }
}

/// Addition that saturates at the bounds of `i64`.
pub fn saturating_add(a: i64, b: i64) -> (r: i64)
    ensures
        r == clamped(a + b),
{
    let sum: i128 = a as i128 + b as i128;
    if sum > i64::MAX as i128 {
        i64::MAX
    } else if sum < i64::MIN as i128 {
        i64::MIN
    } else {
        sum as i64
    }
}

/// Subtraction that saturates at the bounds of `i64`.
pub fn saturating_sub(a: i64, b: i64) -> (r: i64)
    ensures
        r == clamped(a - b),
{
    let difference: i128 = a as i128 - b as i128;
    if difference > i64::MAX as i128 {
        i64::MAX
    } else if difference < i64::MIN as i128 {
        i64::MIN
    } else {
        difference as i64
    }
}

/// The magnitude of a number, saturating at the upper bound of `i64`.
pub fn saturating_abs(a: i64) -> (r: i64)
    ensures
        r == clamped(magnitude(a as int)),
{
    if a == i64::MIN {
        i64::MAX
    } else if a < 0 {
        -a
    } else {
        a
    }
}

/// The moment from which a span counts, by what the clock shows: a clock that
/// cannot be read, or that does not fit, counts as the epoch.
pub open spec fn span_start(shown: Option<nat>) -> i64 {
    match shown {
        Some(micros) => if micros <= i64::MAX {
            micros as i64
        } else {
            0
        },
        None => 0,
    }
}

/// The present, by what the clock shows: there is none when it cannot be read
/// or does not fit.
pub open spec fn present(shown: Option<nat>) -> Option<GrpcTimeval> {
    match shown {
        Some(micros) => if micros <= i64::MAX {
            Some(GrpcTimeval { usec: micros as i64, is_span: false })
        } else {
            None
        },
        None => None,
    }
}

/// Whether an exception says that a number does not fit: it has the text that
/// the error of a failed integer conversion is displayed as.
pub open spec fn out_of_range(thrown: ExceptionView) -> bool {
    exists|e: std::num::TryFromIntError, text: String| #[trigger]
        to_string_from_display_ensures(&e, text) && thrown == exception(
            ExceptionClass::Exception,
            text@,
            0,
        )
}

/// Whether an exception says why a clock that stands at an instant shows no
/// present: the error for an instant before the epoch, as it is displayed, or
/// that the number does not fit.
pub open spec fn no_present(instant: std::time::SystemTime, thrown: ExceptionView) -> bool {
    match span_since_epoch(instant) {
        Ok(_) => out_of_range(thrown),
        Err(e) => exists|text: String| #[trigger]
            to_string_from_display_ensures(&e, text) && thrown == exception(
                ExceptionClass::Exception,
                text@,
                0,
            ),
    }
}

/// A point in time or a span.
///
/// The bare constructor makes a span, a relative duration; `now`,
/// `inf_future` and `inf_past` are absolute. A span used as a deadline counts
/// from the moment at which the call is created.
#[derive(Debug, Clone, Copy)]
pub struct GrpcTimeval {
    pub usec: i64,
    pub is_span: bool,
}

impl GrpcTimeval {
    /// A span from a PHP number: an integer, or a float cut to an integer.
    pub fn new(usec: &PhpValue) -> (r: Result<GrpcTimeval, PhpException>)
        ensures
            match *usec {
                PhpValue::Long(n) => r == Ok::<GrpcTimeval, PhpException>(
                    GrpcTimeval { usec: n, is_span: true },
                ),
                PhpValue::Double(n) => r == Ok::<GrpcTimeval, PhpException>(
                    GrpcTimeval { usec: n, is_span: true },
                ),
                _ => r matches Err(e) && e@ == invalid_argument_view(
                    "Timeval expects a numeric microseconds value"@,
                ),
            },
    {
        match usec {
            PhpValue::Long(n) => Ok(GrpcTimeval { usec: *n, is_span: true }),
            PhpValue::Double(n) => Ok(GrpcTimeval { usec: *n, is_span: true }),
            _ => Err(invalid_argument("Timeval expects a numeric microseconds value")),
        }
    }

    /// The microsecond value.
    pub fn get_usec(&self) -> (r: i64)
        ensures
            r == self.usec,
    {
        self.usec
    }

    /// Whether the value stands for infinity rather than for a number.
    pub open spec fn is_infinite(self) -> bool {
        self.usec == i64::MAX || self.usec == i64::MIN
    }

    /// The deadline that the value names at the moment `now`.
    pub open spec fn absolute_at(self, now: i64) -> i64 {
        if !self.is_span || self.is_infinite() {
            self.usec
        } else {
            clamped(now + self.usec)
        }
    }

    /// The deadline in microseconds since the epoch, where the clock says `now`.
    pub fn to_absolute_usec_at(&self, now: i64) -> (r: i64)
        ensures
            r == self.absolute_at(now),
    {
        if !self.is_span || self.usec == i64::MAX || self.usec == i64::MIN {
            return self.usec;
        }
        saturating_add(now, self.usec)
    }

    /// The deadline in microseconds since the epoch: a span counts from now.
    ///
    /// A clock that cannot be read, or that does not fit, counts as the epoch.
    pub fn to_absolute_usec(&self) -> (r: i64)
        ensures
            exists|instant: std::time::SystemTime|
                r == self.absolute_at(span_start(#[trigger] micros_at(instant))),
    {
        let reading = read_clock();
        let ghost instant = choose|instant: std::time::SystemTime| #[trigger]
            is_reading(instant, reading);
        let now: i64 = match reading {
            Ok(micros) => if micros <= i64::MAX as u128 {
                micros as i64
            } else {
                0
            },
            Err(_) => 0,
        };
        assert(now == span_start(micros_at(instant)));
        self.to_absolute_usec_at(now)
    }

    /// The present, from a clock reading.
    pub fn from_reading(reading: Result<u128, String>) -> (r: Result<GrpcTimeval, PhpException>)
        ensures
            match reading {
                Ok(micros) => if micros <= i64::MAX {
                    r == Ok::<GrpcTimeval, PhpException>(
                        GrpcTimeval { usec: micros as i64, is_span: false },
                    )
                } else {
                    r matches Err(e) && out_of_range(e@)
                },
                Err(why) => r matches Err(e) && e@ == exception(
                    ExceptionClass::Exception,
                    why@,
                    0,
                ),
            },
    {
        match reading {
            Ok(micros) => match i64::try_from(micros) {
                Ok(usec) => Ok(GrpcTimeval { usec, is_span: false }),
                Err(e) => {
                    let text = e.to_string();
                    let thrown = default_exception(text.as_str());
                    assert(to_string_from_display_ensures(&e, text));
                    assert(thrown@ == exception(ExceptionClass::Exception, text@, 0));
                    Err(thrown)
                },
            },
            Err(why) => Err(default_exception(why.as_str())),
        }
    }

    /// The present.
    pub fn now() -> (r: Result<GrpcTimeval, PhpException>)
        ensures
            exists|instant: std::time::SystemTime|
                match present(#[trigger] micros_at(instant)) {
                    Some(t) => r == Ok::<GrpcTimeval, PhpException>(t),
                    None => r matches Err(e) && no_present(instant, e@),
                },
    {
        let reading = read_clock();
        let ghost instant = choose|instant: std::time::SystemTime| #[trigger]
            is_reading(instant, reading);
        let ghost shown = reading;
        let r = GrpcTimeval::from_reading(reading);
        proof {
            assert(present(micros_at(instant)) is None ==> r is Err);
            if shown is Err {
                assert(exists|text: String| #[trigger]
                    to_string_from_display_ensures(&span_since_epoch(instant)->Err_0, text)
                        && r->Err_0@ == exception(ExceptionClass::Exception, text@, 0));
            }
        }
        r
    }

    /// The end of time.
    pub fn inf_future() -> (r: GrpcTimeval)
        ensures
            r == (GrpcTimeval { usec: i64::MAX, is_span: false }),
    {
        GrpcTimeval { usec: i64::MAX, is_span: false }
    }

    /// The beginning of time.
    pub fn inf_past() -> (r: GrpcTimeval)
        ensures
            r == (GrpcTimeval { usec: i64::MIN, is_span: false }),
    {
        GrpcTimeval { usec: i64::MIN, is_span: false }
    }

    /// The empty span.
    pub fn zero() -> (r: GrpcTimeval)
        ensures
            r == (GrpcTimeval { usec: 0, is_span: true }),
    {
        GrpcTimeval { usec: 0, is_span: true }
    }

    /// Whether two values lie within a threshold of each other.
    pub open spec fn spec_similar(a: GrpcTimeval, b: GrpcTimeval, threshold: GrpcTimeval) -> bool {
        clamped(magnitude(clamped(a.usec - b.usec) as int)) <= clamped(
            magnitude(threshold.usec as int),
        )
    }

    /// Whether two values lie within a threshold of each other.
    pub fn similar(a: &GrpcTimeval, b: &GrpcTimeval, threshold: &GrpcTimeval) -> (r: bool)
        ensures
            r == GrpcTimeval::spec_similar(*a, *b, *threshold),
    {
        let diff: i64 = saturating_abs(saturating_sub(a.usec, b.usec));
        diff <= saturating_abs(threshold.usec)
    }

    /// How two values are ordered.
    pub open spec fn spec_compare(a: GrpcTimeval, b: GrpcTimeval) -> int {
        if a.usec < b.usec {
            -1
        } else if a.usec == b.usec {
            0
        } else {
            1
        }
    }

    /// -1, 0 or 1 as the first value lies before, at or after the second.
    pub fn compare(a: &GrpcTimeval, b: &GrpcTimeval) -> (r: i64)
        ensures
            r == GrpcTimeval::spec_compare(*a, *b),
    {
        if a.usec < b.usec {
            -1
        } else if a.usec == b.usec {
            0
        } else {
            1
        }
    }

    /// The sum of two values.
    pub open spec fn spec_add(self, other: GrpcTimeval) -> GrpcTimeval {
        if self.is_infinite() {
            self
        } else {
            GrpcTimeval {
                usec: clamped(self.usec + other.usec),
                is_span: self.is_span && other.is_span,
            }
        }
    }

    /// Adds a value; infinity stays infinity, and an absolute time plus a
    /// span is absolute.
    pub fn add(&self, other: &GrpcTimeval) -> (r: GrpcTimeval)
        ensures
            r == self.spec_add(*other),
    {
        if self.usec == i64::MAX || self.usec == i64::MIN {
            return GrpcTimeval { usec: self.usec, is_span: self.is_span };
        }
        GrpcTimeval {
            usec: saturating_add(self.usec, other.usec),
            is_span: self.is_span && other.is_span,
        }
    }

    /// The difference of two values.
    pub open spec fn spec_subtract(self, other: GrpcTimeval) -> GrpcTimeval {
        if self.is_infinite() {
            self
        } else {
            GrpcTimeval {
                usec: clamped(self.usec - other.usec),
                is_span: self.is_span && other.is_span,
            }
        }
    }

    /// Subtracts a value; infinity stays infinity.
    pub fn subtract(&self, other: &GrpcTimeval) -> (r: GrpcTimeval)
        ensures
            r == self.spec_subtract(*other),
    {
        if self.usec == i64::MAX || self.usec == i64::MIN {
            return GrpcTimeval { usec: self.usec, is_span: self.is_span };
        }
        GrpcTimeval {
            usec: saturating_sub(self.usec, other.usec),
            is_span: self.is_span && other.is_span,
        }
    }

    /// How long to sleep at the moment `now` to reach this time: nothing for
    /// a time that has come.
    pub open spec fn sleep_at(self, now: i64) -> Option<u64> {
        if self.usec > now {
            Some(clamped(self.usec - now) as u64)
        } else {
            None
        }
    }

    /// The microseconds to sleep, where the clock says `now`.
    pub fn sleep_until_at(&self, now: i64) -> (r: Option<u64>)
        ensures
            r == self.sleep_at(now),
    {
        let remaining: i64 = saturating_sub(self.usec, now);
        if remaining > 0 {
            Some(remaining as u64)
        } else {
            None
        }
    }

    /// The microseconds to sleep from now until this time.
    pub fn sleep_until(&self) -> (r: Result<Option<u64>, PhpException>)
        ensures
            exists|instant: std::time::SystemTime|
                match present(#[trigger] micros_at(instant)) {
                    Some(t) => r == Ok::<Option<u64>, PhpException>(self.sleep_at(t.usec)),
                    None => r matches Err(e) && no_present(instant, e@),
                },
    {
        match GrpcTimeval::now() {
            Ok(present) => Ok(self.sleep_until_at(present.usec)),
            Err(e) => Err(e),
        }
    }
}

// ---------------------------------------------------------------------------
// Laws
// ---------------------------------------------------------------------------

/// Comparison is a total order: swapping the values flips the sign, and it
/// chains.
pub proof fn law_compare_is_an_order(a: GrpcTimeval, b: GrpcTimeval, c: GrpcTimeval)
    ensures
        GrpcTimeval::spec_compare(a, b) == -GrpcTimeval::spec_compare(b, a),
        GrpcTimeval::spec_compare(a, b) == 0 <==> a.usec == b.usec,
        GrpcTimeval::spec_compare(a, b) <= 0 && GrpcTimeval::spec_compare(b, c) <= 0
            ==> GrpcTimeval::spec_compare(a, c) <= 0,
{
}

/// The infinities bound every value.
pub proof fn law_infinities_are_extremal(t: GrpcTimeval)
    ensures
        GrpcTimeval::spec_compare(t, GrpcTimeval { usec: i64::MAX, is_span: false }) <= 0,
        GrpcTimeval::spec_compare(GrpcTimeval { usec: i64::MIN, is_span: false }, t) <= 0,
{
}

/// Infinity plus or minus anything is the same infinity.
pub proof fn law_infinity_absorbs(infinity: GrpcTimeval, t: GrpcTimeval)
    requires
        infinity.is_infinite(),
    ensures
        infinity.spec_add(t) == infinity,
        infinity.spec_subtract(t) == infinity,
{
}

/// Where the sum does not reach an infinity that `a` is not, subtracting
/// undoes adding.
pub proof fn law_subtract_undoes_add(a: GrpcTimeval, b: GrpcTimeval)
    requires
        a.is_infinite() || i64::MIN < a.usec + b.usec < i64::MAX,
    ensures
        a.spec_add(b).spec_subtract(b).usec == a.usec,
{
}

/// Adding spans keeps a span, and an absolute time in the sum makes it
/// absolute.
pub proof fn law_kind_of_a_sum(a: GrpcTimeval, b: GrpcTimeval)
    requires
        !a.is_infinite(),
    ensures
        a.spec_add(b).is_span <==> a.is_span && b.is_span,
{
}

/// Similarity does not depend on the order of the two values, and holds of a
/// value and itself.
pub proof fn law_similar_is_symmetric(a: GrpcTimeval, b: GrpcTimeval, threshold: GrpcTimeval)
    ensures
        GrpcTimeval::spec_similar(a, b, threshold) == GrpcTimeval::spec_similar(b, a, threshold),
        GrpcTimeval::spec_similar(a, a, threshold),
{
}

/// A span is resolved against the present; an absolute time is not.
pub proof fn law_only_spans_move_with_the_clock(t: GrpcTimeval, now: i64)
    ensures
        !t.is_span ==> t.absolute_at(now) == t.usec,
        t.is_span && !t.is_infinite() ==> t.absolute_at(now) == clamped(now + t.usec),
        t.is_infinite() ==> t.absolute_at(now) == t.usec,
{
}

/// A number that fits is kept as it is; only one that does not is brought to the
/// nearer end of the range.
pub proof fn law_numbers_that_fit_are_kept(n: int)
    ensures
        i64::MIN <= n <= i64::MAX ==> clamped(n) == n,
        n > i64::MAX ==> clamped(n) == i64::MAX,
        n < i64::MIN ==> clamped(n) == i64::MIN,
        magnitude(n) == n || magnitude(n) == -n,
        magnitude(n) >= 0,
{
}

/// Sums and differences of finite values are those of their microseconds, for
/// all values whose result fits; past the range they are the infinity on that
/// side. Both are spans only where both values are.
pub proof fn law_sums_and_differences(a: GrpcTimeval, b: GrpcTimeval)
    requires
        i64::MIN < a.usec < i64::MAX,
    ensures
        i64::MIN <= a.usec + b.usec <= i64::MAX ==> a.spec_add(b).usec == a.usec + b.usec,
        a.usec + b.usec > i64::MAX ==> a.spec_add(b).usec == i64::MAX,
        a.usec + b.usec < i64::MIN ==> a.spec_add(b).usec == i64::MIN,
        i64::MIN <= a.usec - b.usec <= i64::MAX ==> a.spec_subtract(b).usec == a.usec - b.usec,
        a.usec - b.usec > i64::MAX ==> a.spec_subtract(b).usec == i64::MAX,
        a.usec - b.usec < i64::MIN ==> a.spec_subtract(b).usec == i64::MIN,
        a.spec_add(b).is_span == (a.is_span && b.is_span),
        a.spec_subtract(b).is_span == (a.is_span && b.is_span),
{
}

/// The two ends of the range are the infinities, and nothing else is: adding to
/// one or subtracting from one gives it back.
pub proof fn law_infinities_are_the_ends(t: GrpcTimeval, other: GrpcTimeval)
    ensures
        t.is_infinite() <==> t.usec == i64::MAX || t.usec == i64::MIN,
        t.usec == i64::MAX || t.usec == i64::MIN ==> t.spec_add(other) == t && t.spec_subtract(
            other,
        ) == t,
{
}

/// Comparison tells earlier, same and later apart.
pub proof fn law_compare_tells_values_apart(a: GrpcTimeval, b: GrpcTimeval)
    ensures
        a.usec < b.usec ==> GrpcTimeval::spec_compare(a, b) == -1,
        a.usec == b.usec ==> GrpcTimeval::spec_compare(a, b) == 0,
        a.usec > b.usec ==> GrpcTimeval::spec_compare(a, b) == 1,
{
}

/// Two values are similar exactly when they lie no further apart than the
/// threshold reaches to either side. Distances past the range count as its end.
pub proof fn law_similar_means_close(a: GrpcTimeval, b: GrpcTimeval, threshold: GrpcTimeval)
    ensures
        -i64::MAX <= a.usec - b.usec <= i64::MAX && threshold.usec >= 0 ==> (
        GrpcTimeval::spec_similar(a, b, threshold) <==> -threshold.usec <= a.usec - b.usec
            <= threshold.usec),
        -i64::MAX <= a.usec - b.usec <= i64::MAX && -i64::MAX <= threshold.usec < 0 ==> (
        GrpcTimeval::spec_similar(a, b, threshold) <==> threshold.usec <= a.usec - b.usec
            <= -threshold.usec),
        threshold.usec == i64::MAX || threshold.usec == i64::MIN ==> GrpcTimeval::spec_similar(
            a,
            b,
            threshold,
        ),
        !(-i64::MAX <= a.usec - b.usec <= i64::MAX) && -i64::MAX < threshold.usec < i64::MAX
            ==> !GrpcTimeval::spec_similar(a, b, threshold),
{
}

/// A deadline is the value itself where the value is absolute or infinite, and
/// otherwise so many microseconds from now, as far as that fits.
pub proof fn law_deadlines_are_resolved(t: GrpcTimeval, now: i64)
    ensures
        !t.is_span || t.usec == i64::MAX || t.usec == i64::MIN ==> t.absolute_at(now) == t.usec,
        t.is_span && i64::MIN < t.usec < i64::MAX && i64::MIN <= now + t.usec <= i64::MAX
            ==> t.absolute_at(now) == now + t.usec,
        t.is_span && t.usec < i64::MAX && now + t.usec > i64::MAX ==> t.absolute_at(now)
            == i64::MAX,
        t.is_span && t.usec > i64::MIN && now + t.usec < i64::MIN ==> t.absolute_at(now)
            == i64::MIN,
{
}

/// A sleep until a time to come lasts exactly until then, as far as that fits;
/// until a time that has come there is none.
pub proof fn law_sleep_lasts_until_the_time(t: GrpcTimeval, now: i64)
    ensures
        t.sleep_at(now) is Some <==> now < t.usec,
        t.sleep_at(now) matches Some(usec) ==> usec == if t.usec - now <= i64::MAX {
            t.usec - now
        } else {
            i64::MAX as int
        },
{
}

/// The present is what the clock shows, to the microsecond, and is absolute. A
/// clock that shows nothing, or too much, has no present, and spans then count
/// from the epoch.
pub proof fn law_present_is_what_the_clock_shows(micros: nat)
    ensures
        micros <= i64::MAX ==> span_start(Some(micros)) == micros && (present(Some(micros)) matches Some(
            t,
        ) && t.usec == micros && !t.is_span),
        micros > i64::MAX ==> span_start(Some(micros)) == 0 && present(Some(micros)) is None,
        span_start(None) == 0,
        present(None) is None,
{
}

/// Why there is no present is told in a plain `\Exception` of code 0: for an
/// instant before the epoch the error that the clock gives, and otherwise that
/// the number does not fit, each as it is displayed.
pub proof fn law_missing_present_is_told(instant: std::time::SystemTime, thrown: ExceptionView)
    ensures
        no_present(instant, thrown) ==> thrown.class is Exception && thrown.code == 0,
        no_present(instant, thrown) ==> (span_since_epoch(instant) matches Err(e) ==> exists|
            text: String,
        | #[trigger]
            to_string_from_display_ensures(&e, text) && thrown.message == text@),
        no_present(instant, thrown) && span_since_epoch(instant) is Ok ==> exists|
            e: std::num::TryFromIntError,
            text: String,
        | #[trigger]
            to_string_from_display_ensures(&e, text) && thrown.message == text@,
{
}

} // verus!
