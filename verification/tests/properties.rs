//! The general behaviour of the library on concrete values: order,
//! idempotence, signs, sentinels, and the deliberate asymmetry of the two
//! coverage formulas.

use pinhole::Angle;
use pinhole::Frac;
use pinhole::calc_optimalsize;
use pinhole::calc_viewangle;
use pinhole::calc_vignetting;
use pinhole::coverage_radius;
use pinhole::delta_thirds;
use pinhole::magnification;
use pinhole::needed_focallength;
use pinhole::projection_diameter;
use pinhole::stop_equivalent;

#[test]
fn stop_equivalent_of_the_whole_is_zero() {
    assert_eq!(stop_equivalent(Frac { num: 1, den: 1 }), 0);
    assert_eq!(stop_equivalent(Frac { num: 7, den: 7 }), 0);
}

#[test]
fn stop_equivalent_is_monotonic_decreasing() {
    // as the fraction of light falls, the loss in stops can only grow.
    let whole: i64 = stop_equivalent(Frac { num: 1, den: 1 });
    let half: i64 = stop_equivalent(Frac { num: 1, den: 2 });
    let third: i64 = stop_equivalent(Frac { num: 1, den: 3 });
    let quarter: i64 = stop_equivalent(Frac { num: 1, den: 4 });
    assert_eq!(half, 3);
    assert_eq!(third, 4);
    assert!(whole < half && half < third && third < quarter);
}

#[test]
fn stop_equivalent_of_darkness_is_the_infinity_sentinel() {
    assert_eq!(stop_equivalent(Frac { num: 0, den: 1 }), i64::MAX);
}

#[test]
fn stop_equivalent_of_a_gain_is_negative() {
    // a fraction above one is a gain of light: negative stops of loss.
    assert_eq!(stop_equivalent(Frac { num: 5, den: 4 }), -1);
}

#[test]
fn delta_thirds_of_equal_fstops_is_zero() {
    assert_eq!(delta_thirds(1, 1), 0);
    assert_eq!(delta_thirds(32, 32), 0);
    assert_eq!(delta_thirds(166, 166), 0);
}

#[test]
fn delta_thirds_sign_follows_the_larger_fstop() {
    // towards a smaller aperture the difference is positive, back down it
    // is negative and exactly opposite for an exact ratio.
    assert_eq!(delta_thirds(64, 32), -6);
    assert_eq!(delta_thirds(32, 45), 2);
}

#[test]
fn every_function_is_idempotent() {
    // pure recomputation: a second call with the same inputs returns the
    // same value, with no state to drift.
    assert_eq!(
        calc_optimalsize(50_000, 550, 156, 0),
        calc_optimalsize(50_000, 550, 156, 0)
    );
    assert_eq!(calc_viewangle(300, 40), calc_viewangle(300, 40));
    assert_eq!(calc_vignetting(50, 22), calc_vignetting(50, 22));
    assert_eq!(
        stop_equivalent(Frac { num: 1, den: 3 }),
        stop_equivalent(Frac { num: 1, den: 3 })
    );
    assert_eq!(delta_thirds(32, 45), delta_thirds(32, 45));
    assert_eq!(
        coverage_radius(50_000, Angle { rise: 3, run: 4 }),
        coverage_radius(50_000, Angle { rise: 3, run: 4 })
    );
    assert_eq!(
        needed_focallength(22_000, Angle { rise: 3, run: 4 }),
        needed_focallength(22_000, Angle { rise: 3, run: 4 })
    );
    assert_eq!(projection_diameter(240, 360), projection_diameter(240, 360));
    assert_eq!(magnification(50_000, 1000), magnification(50_000, 1000));
}

#[test]
fn coverage_and_needed_focallength_agree_only_at_45_degrees() {
    // 45 degrees is its own complement, so the two formulas coincide
    // there...
    let half_right: Angle = Angle { rise: 1, run: 1 };
    assert_eq!(
        coverage_radius(50_000, half_right),
        needed_focallength(50_000, half_right)
    );
    // ...and nowhere else: one reads the angle, the other its complement.
    let shallow: Angle = Angle { rise: 1, run: 2 };
    let covered: u64 = coverage_radius(50_000, shallow);
    let needed: u64 = needed_focallength(50_000, shallow);
    assert_eq!(covered, 25_000);
    assert_eq!(needed, 100_000);
    assert_ne!(covered, needed);
}

#[test]
fn viewangle_feeds_coverage() {
    // the egui shell chains the two: a 0.3 mm pinhole in a 0.04 mm plate
    // at 50 mm focal length covers a radius of 375 mm.
    let va: Angle = calc_viewangle(300, 40);
    assert_eq!(coverage_radius(50_000, va), 375_000);
}

#[test]
fn angles_order_by_their_tangent() {
    let zero: Angle = Angle { rise: 0, run: 1 };
    let shallow: Angle = Angle { rise: 1, run: 2 };
    let half_right: Angle = Angle { rise: 5, run: 5 };
    let right: Angle = Angle { rise: 1, run: 0 };
    assert!(zero.lt(&shallow));
    assert!(shallow.lt(&half_right));
    assert!(half_right.lt(&right));
    assert!(!right.lt(&right));
    assert!(zero.is_zero());
    assert!(!shallow.is_half_right());
}

#[test]
fn fractions_order_by_cross_products() {
    let quarter: Frac = Frac { num: 1, den: 4 };
    let half: Frac = Frac { num: 2, den: 4 };
    let whole: Frac = Frac::one();
    assert!(quarter.lt(&half));
    assert!(half.lt(&whole));
    assert!(!whole.lt(&half));
}

#[test]
fn magnification_is_focal_length_over_distance() {
    // 50 mm focal length, subject at one meter: magnification 0.050.
    assert_eq!(magnification(50_000, 1000), 50);
    // a subject a kilometer away is as good as at infinity.
    assert_eq!(magnification(50_000, 1_000_000), 0);
}

#[test]
fn optimalsize_keeps_two_decimals_across_wavelengths() {
    // blue light wants a finer pinhole than red at the same focal length.
    let blue: u64 = calc_optimalsize(50_000, 450, 156, 0);
    let red: u64 = calc_optimalsize(50_000, 650, 156, 0);
    assert_eq!(blue, 234);
    assert_eq!(red, 281);
    assert!(blue < red);
}
