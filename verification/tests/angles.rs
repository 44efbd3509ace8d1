//! Exact angular coordinates and axis splitting.
use amphion::exact::ExactRational;
use amphion::geometry::analytic::affine::{
    exact_zero2, exact_zero3, perpendicular_part, raw_plane_residual3,
};
use amphion::geometry::analytic::angles::{
    angle_from_radial2, angle_from_radial3, periodic_angle_interval, periodic_representative,
    IdealFrame3, PeriodicRepresentative,
};
use amphion::geometry::analytic::trig::RatInterval;
use amphion::geometry::error::GeometryError;
use amphion::geometry::evaluation::CertificationBudget;

fn budget() -> CertificationBudget {
    CertificationBudget::default()
}

fn whole(n: i64) -> ExactRational {
    ExactRational::from_int(n)
}

fn q(n: i64, d: i64) -> ExactRational {
    ExactRational::from_ratio(n, d)
}

fn point(n: i64) -> RatInterval {
    RatInterval { lo: whole(n), hi: whole(n) }
}

/// The interval lies inside `[lo, hi]`.
fn within(i: &RatInterval, lo: ExactRational, hi: ExactRational) -> bool {
    lo.at_most(&i.lo) && i.hi.at_most(&hi) && i.lo.at_most(&i.hi)
}

#[test]
fn non_negative_angles_are_already_canonical() {
    let angle = periodic_angle_interval(budget(), RatInterval { lo: q(1, 2), hi: q(3, 4) }, false)
        .unwrap();
    assert!(angle.lo == q(1, 2) && angle.hi == q(3, 4));
}

#[test]
fn negative_angles_move_up_by_tau() {
    // -1 + 2 pi = 5.2831853...
    let angle = periodic_angle_interval(budget(), point(-1), true).unwrap();
    assert!(within(&angle, q(52831, 10000), q(52832, 10000)));
}

#[test]
fn planar_radial_angles_are_measured_from_the_seed() {
    let x_seed = [whole(1), whole(0)];
    let up = angle_from_radial2(budget(), &x_seed, &[whole(0), whole(3)]).unwrap();
    assert!(within(&up, q(15707, 10000), q(15708, 10000)));
    let down = angle_from_radial2(budget(), &x_seed, &[whole(0), whole(-3)]).unwrap();
    assert!(within(&down, q(47123, 10000), q(47124, 10000)));
    // A seed that is not unit length gives the same angle.
    let long_seed = [whole(2), whole(0)];
    let up_again = angle_from_radial2(budget(), &long_seed, &[whole(0), whole(1)]).unwrap();
    assert!(within(&up_again, q(15707, 10000), q(15708, 10000)));
}

#[test]
fn spatial_radial_angles_use_the_frame() {
    let unit = |n: i64| point(n);
    let frame = IdealFrame3 {
        z: [unit(0), unit(0), unit(1)],
        x: [unit(1), unit(0), unit(0)],
        y: [unit(0), unit(1), unit(0)],
        z_seed: [whole(0), whole(0), whole(1)],
        x_perp: [whole(1), whole(0), whole(0)],
        z_norm: point(1),
    };
    let quarter = angle_from_radial3(budget(), &frame, &[whole(0), whole(1), whole(0)], false).unwrap();
    assert!(within(&quarter, q(15707, 10000), q(15708, 10000)));
    // On the negative nappe the radial direction is reversed: (0, 1, 0) reads as 3 pi / 2.
    let flipped = angle_from_radial3(budget(), &frame, &[whole(0), whole(1), whole(0)], true).unwrap();
    assert!(within(&flipped, q(47123, 10000), q(47124, 10000)));
}

#[test]
fn the_origin_has_no_angle() {
    let err = angle_from_radial2(budget(), &[whole(1), whole(0)], &[whole(0), whole(0)]);
    match err {
        Err(GeometryError::Uncertified { reason }) => assert_eq!(
            reason,
            "certified atan2 is undefined at the origin (zero in-plane displacement)"
        ),
        _ => panic!("expected the atan2 pole"),
    }
}

#[test]
fn plane_residual_splits_off_the_axial_part() {
    let (t, radial) =
        raw_plane_residual3(budget(), &[whole(1), whole(2), whole(3)], &[whole(0), whole(0), whole(2)])
            .unwrap();
    assert!(t == q(3, 2));
    assert!(radial[0] == whole(1) && radial[1] == whole(2) && radial[2] == whole(0));
    match raw_plane_residual3(budget(), &[whole(1), whole(2), whole(3)], &[whole(0), whole(0), whole(0)]) {
        Err(GeometryError::Uncertified { reason }) => {
            assert_eq!(reason, "axis seed has exact zero magnitude")
        },
        _ => panic!("expected the zero-axis failure"),
    }
}

#[test]
fn perpendicular_part_removes_the_axis_component() {
    let perp =
        perpendicular_part(budget(), &[whole(0), whole(0), whole(2)], &[whole(1), whole(0), whole(5)])
            .unwrap();
    assert!(perp[0] == whole(1) && perp[1] == whole(0) && perp[2] == whole(0));
}

#[test]
fn exact_zero_checks_every_coordinate() {
    assert!(exact_zero3(&[whole(0), whole(0), whole(0)]));
    assert!(!exact_zero3(&[whole(0), q(1, 9), whole(0)]));
    assert!(exact_zero2(&[whole(0), whole(0)]));
    assert!(!exact_zero2(&[whole(-1), whole(0)]));
}

#[test]
fn interior_angles_keep_their_own_representative() {
    let theta = RatInterval { lo: whole(1), hi: whole(2) };
    assert!(matches!(
        periodic_representative(budget(), &theta).unwrap(),
        PeriodicRepresentative::Interior
    ));
}

#[test]
fn seam_angles_are_represented_by_zero() {
    let theta = RatInterval { lo: q(-1, 10), hi: q(1, 10) };
    match periodic_representative(budget(), &theta).unwrap() {
        PeriodicRepresentative::Seam(bound) => assert!(bound == q(1, 10)),
        PeriodicRepresentative::Interior => panic!("a seam interval is not interior"),
    }
    // Just below a full turn, the distance to tau is the small one.
    let theta = RatInterval { lo: q(6283, 1000), hi: q(6284, 1000) };
    match periodic_representative(budget(), &theta).unwrap() {
        PeriodicRepresentative::Seam(bound) => {
            assert!(bound.at_most(&q(1, 1000)) && q(1, 10000).at_most(&bound))
        },
        PeriodicRepresentative::Interior => panic!("an interval past tau's lower end is a seam"),
    }
}
