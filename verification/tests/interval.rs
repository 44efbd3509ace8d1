//! Closed intervals with finite binary64 endpoints.
use amphion::interval::{Interval, IntervalError};

fn iv(lo: f64, hi: f64) -> Interval {
    Interval::try_new(lo.to_bits(), hi.to_bits()).unwrap()
}

fn value(bits: u64) -> f64 {
    f64::from_bits(bits)
}

/// The next larger binary64 value of a finite positive `x`.
fn next_up(x: f64) -> f64 {
    f64::from_bits(x.to_bits() + 1)
}

/// The next smaller binary64 value of a finite positive `x`.
fn next_down(x: f64) -> f64 {
    f64::from_bits(x.to_bits() - 1)
}

#[test]
fn construction_validates_finiteness() {
    assert_eq!(
        Interval::try_new(f64::NAN.to_bits(), 1.0_f64.to_bits()).unwrap_err(),
        IntervalError::NonFinite
    );
    assert_eq!(
        Interval::try_new(1.0_f64.to_bits(), f64::INFINITY.to_bits()).unwrap_err(),
        IntervalError::NonFinite
    );
}

#[test]
fn construction_validates_ordering() {
    assert_eq!(
        Interval::try_new(2.0_f64.to_bits(), 1.0_f64.to_bits()).unwrap_err(),
        IntervalError::InvertedBounds
    );
}

#[test]
fn degenerate_interval_contains_only_point() {
    let p = Interval::point(3.5_f64.to_bits()).unwrap();
    assert!(p.contains(3.5_f64.to_bits()).unwrap());
    assert!(!p.contains(next_up(3.5).to_bits()).unwrap());
    assert!(!p.contains(next_down(3.5).to_bits()).unwrap());
}

#[test]
fn contains_rejects_nan() {
    let i = iv(-1.0, 1.0);
    assert_eq!(i.contains(f64::NAN.to_bits()).unwrap_err(), IntervalError::NonFinite);
}

#[test]
fn contains_rejects_infinity() {
    let i = iv(-1.0, 1.0);
    assert_eq!(
        i.contains(f64::INFINITY.to_bits()).unwrap_err(),
        IntervalError::NonFinite
    );
}

#[test]
fn contains_is_inclusive() {
    let i = iv(-1.0, 1.0);
    assert!(i.contains((-1.0_f64).to_bits()).unwrap());
    assert!(i.contains(0.0_f64.to_bits()).unwrap());
    assert!(i.contains(1.0_f64.to_bits()).unwrap());
    assert!(!i.contains(next_up(1.0).to_bits()).unwrap());
}

#[test]
fn neg_is_exact() {
    let a = iv(-3.0, 2.0);
    let na = -a;
    assert_eq!(value(na.lo()), -2.0);
    assert_eq!(value(na.hi()), 3.0);
}

#[test]
fn hull_spans_both_intervals() {
    let a = iv(1.0, 3.0);
    let b = iv(2.0, 5.0);
    let h = a.hull(b);
    assert_eq!(value(h.lo()), 1.0);
    assert_eq!(value(h.hi()), 5.0);
}

#[test]
fn intersects_works_correctly() {
    let a = iv(0.0, 2.0);
    let b = iv(1.0, 3.0);
    assert!(a.intersects(b));
    assert!(!a.intersects(iv(2.5, 4.0)));
}

#[test]
fn point_accepts_negative_zero() {
    let interval = Interval::point((-0.0_f64).to_bits()).unwrap();
    assert_eq!(value(interval.lo()), -0.0);
    assert_eq!(value(interval.hi()), -0.0);
}

#[test]
fn point_rejects_non_finite() {
    assert_eq!(
        Interval::point(f64::NEG_INFINITY.to_bits()).unwrap_err(),
        IntervalError::NonFinite
    );
}

#[test]
fn negated_is_an_involution() {
    let a = iv(-0.25, 7.5);
    let twice = a.negated().negated();
    assert_eq!(twice.lo(), a.lo());
    assert_eq!(twice.hi(), a.hi());
    assert!(twice == a);
}

#[test]
fn hull_contains_both_inputs() {
    let a = iv(-4.0, -1.0);
    let b = iv(3.0, 8.0);
    let h = a.hull(b);
    for x in [-4.0_f64, -1.0, 3.0, 8.0, 0.0] {
        assert!(h.contains(x.to_bits()).unwrap());
    }
    assert!(!h.contains(8.5_f64.to_bits()).unwrap());
}

#[test]
fn intervals_equal_by_value_across_signed_zeros() {
    let positive = Interval::point(0.0_f64.to_bits()).unwrap();
    let negative = Interval::point((-0.0_f64).to_bits()).unwrap();
    assert!(positive == negative);
    assert!(positive.intersects(negative));
}

#[test]
fn interval_error_messages_are_stable() {
    assert!(!IntervalError::NonFinite.message().is_empty());
    assert!(!IntervalError::InvertedBounds.message().is_empty());
}
