use grpc_php_rs::clock::{now_usec, read_clock, reading_at, usec_from_reading};
use grpc_php_rs::error::ExceptionClass;
use grpc_php_rs::timeval::{saturating_abs, saturating_add, saturating_sub, GrpcTimeval};
use grpc_php_rs::value::PhpValue;

fn span(usec: i64) -> GrpcTimeval {
    GrpcTimeval { usec, is_span: true }
}

fn at(usec: i64) -> GrpcTimeval {
    GrpcTimeval { usec, is_span: false }
}

#[test]
fn a_timeval_is_made_from_a_number() {
    let t = GrpcTimeval::new(&PhpValue::Long(5)).unwrap();
    assert_eq!((t.get_usec(), t.is_span), (5, true));
    let t = GrpcTimeval::new(&PhpValue::Double(7)).unwrap();
    assert_eq!((t.get_usec(), t.is_span), (7, true));
    let e = GrpcTimeval::new(&PhpValue::Str(b"5".to_vec())).unwrap_err();
    assert_eq!(e.class, ExceptionClass::InvalidArgumentException);
    assert_eq!(e.message, "Timeval expects a numeric microseconds value");
}

#[test]
fn a_span_counts_from_now() {
    assert_eq!(span(5).to_absolute_usec_at(100), 105);
    assert_eq!(at(5).to_absolute_usec_at(100), 5);
    assert_eq!(span(i64::MAX).to_absolute_usec_at(100), i64::MAX);
    assert_eq!(span(i64::MAX - 1).to_absolute_usec_at(100), i64::MAX);
    let before = now_usec();
    let deadline = span(1_000_000).to_absolute_usec();
    let after = now_usec();
    assert!(before + 1_000_000 <= deadline && deadline <= after + 1_000_000);
}

#[test]
fn the_clock_is_after_the_year_2020() {
    assert!(now_usec() > 1_577_836_800_000_000);
    let now = GrpcTimeval::now().unwrap();
    assert!(!now.is_span);
    assert!(now.usec > 1_577_836_800_000_000);
}

#[test]
fn a_clock_shows_whole_microseconds_since_the_epoch() {
    let epoch = std::time::UNIX_EPOCH;
    assert_eq!(reading_at(epoch), Ok(0));
    assert_eq!(reading_at(epoch + std::time::Duration::from_nanos(42_999)), Ok(42));
    let before = epoch - std::time::Duration::from_secs(1);
    let why = before.duration_since(epoch).unwrap_err().to_string();
    assert_eq!(reading_at(before), Err(why.clone()));
    assert_eq!(GrpcTimeval::from_reading(reading_at(before)).unwrap_err().message, why);
    let before = reading_at(std::time::SystemTime::now()).unwrap();
    let read = read_clock().unwrap();
    let after = reading_at(std::time::SystemTime::now()).unwrap();
    assert!(before <= read && read <= after);
}

#[test]
fn clock_readings() {
    assert_eq!(usec_from_reading(&Ok(42)), 42);
    assert_eq!(usec_from_reading(&Err("before".to_string())), 0);
    assert_eq!(usec_from_reading(&Ok(1u128 << 63)), i64::MIN);
    let t = GrpcTimeval::from_reading(Ok(42)).unwrap();
    assert_eq!((t.usec, t.is_span), (42, false));
    let e = GrpcTimeval::from_reading(Err("before".to_string())).unwrap_err();
    assert_eq!(e.message, "before");
    let e = GrpcTimeval::from_reading(Ok(1u128 << 63)).unwrap_err();
    assert_eq!(e.message, i64::try_from(1u128 << 63).unwrap_err().to_string());
    assert_eq!((e.class, e.code), (ExceptionClass::Exception, 0));
}

#[test]
fn infinities_and_zero() {
    assert_eq!((GrpcTimeval::inf_future().usec, GrpcTimeval::inf_future().is_span), (i64::MAX, false));
    assert_eq!((GrpcTimeval::inf_past().usec, GrpcTimeval::inf_past().is_span), (i64::MIN, false));
    assert_eq!((GrpcTimeval::zero().usec, GrpcTimeval::zero().is_span), (0, true));
}

#[test]
fn timevals_are_compared() {
    assert_eq!(GrpcTimeval::compare(&at(1), &at(2)), -1);
    assert_eq!(GrpcTimeval::compare(&at(2), &span(2)), 0);
    assert_eq!(GrpcTimeval::compare(&at(3), &at(2)), 1);
    assert_eq!(GrpcTimeval::compare(&GrpcTimeval::inf_past(), &at(0)), -1);
    assert_eq!(GrpcTimeval::compare(&GrpcTimeval::inf_future(), &at(0)), 1);
}

#[test]
fn timevals_are_similar_within_a_threshold() {
    assert!(GrpcTimeval::similar(&at(10), &at(7), &span(3)));
    assert!(!GrpcTimeval::similar(&at(10), &at(6), &span(3)));
    assert!(GrpcTimeval::similar(&at(7), &at(10), &span(-3)));
    assert!(GrpcTimeval::similar(&at(i64::MAX), &at(i64::MIN), &span(i64::MIN)));
}

#[test]
fn sums_and_differences() {
    let t = at(10).add(&span(5));
    assert_eq!((t.usec, t.is_span), (15, false));
    let t = span(10).add(&span(5));
    assert_eq!((t.usec, t.is_span), (15, true));
    let t = at(10).subtract(&span(5));
    assert_eq!((t.usec, t.is_span), (5, false));
    let t = at(i64::MAX - 1).add(&span(5));
    assert_eq!(t.usec, i64::MAX);
    let t = GrpcTimeval::inf_future().subtract(&span(5));
    assert_eq!((t.usec, t.is_span), (i64::MAX, false));
    let t = GrpcTimeval::inf_past().add(&at(5));
    assert_eq!(t.usec, i64::MIN);
}

#[test]
fn subtracting_undoes_adding() {
    let t = at(1_000).add(&span(250)).subtract(&span(250));
    assert_eq!((t.usec, t.is_span), (1_000, false));
}

#[test]
fn sleeping_until_a_time() {
    assert_eq!(at(100).sleep_until_at(40), Some(60));
    assert_eq!(at(100).sleep_until_at(100), None);
    assert_eq!(at(100).sleep_until_at(200), None);
    assert_eq!(GrpcTimeval::inf_future().sleep_until_at(5), Some(i64::MAX as u64 - 5));
    assert_eq!(GrpcTimeval::inf_future().sleep_until_at(-1), Some(i64::MAX as u64));
    assert_eq!(GrpcTimeval::inf_future().sleep_until_at(i64::MAX), None);
    assert_eq!(GrpcTimeval::inf_past().sleep_until_at(0), None);
    assert!(matches!(at(0).sleep_until(), Ok(None)));
}

#[test]
fn saturating_arithmetic() {
    assert_eq!(saturating_add(i64::MAX, 1), i64::MAX);
    assert_eq!(saturating_add(i64::MIN, -1), i64::MIN);
    assert_eq!(saturating_sub(i64::MIN, 1), i64::MIN);
    assert_eq!(saturating_sub(0, i64::MIN), i64::MAX);
    assert_eq!(saturating_abs(i64::MIN), i64::MAX);
    assert_eq!(saturating_abs(-4), 4);
}
