//! The formula scenarios: each test fixes concrete inputs and the exact
//! value the contract promises for them.
//!
//! Lengths are passed in the library's scaled units: micrometers for
//! pinhole-scale lengths, millimeters for the vignetting radii, tenths of
//! a millimeter for film formats. Quantities of light come back in
//! third-stops.

use pinhole::Angle;
use pinhole::Frac;
use pinhole::calc_optimalsize;
use pinhole::calc_viewangle;
use pinhole::calc_vignetting;
use pinhole::coverage_radius;
use pinhole::delta_thirds;
use pinhole::needed_focallength;
use pinhole::projection_diameter;
use pinhole::stop_equivalent;

#[test]
fn optimalsize() {
    // 50 mm focal length, 550 nm light, Rayleigh factor 1.56, subject at
    // infinity: 258 micrometers, which is 0.26 mm at two decimal places.
    let os: u64 = calc_optimalsize(50_000, 550, 156, 0);
    assert_eq!(os, 258);
    assert_eq!((os + 5) / 10, 26);
}

#[test]
fn viewangle() {
    // a pinhole as wide as its plate is thick opens half a right angle:
    // 45 degrees exactly.
    let va: Angle = calc_viewangle(1000, 1000);
    assert!(va.is_half_right());
    assert_eq!(va, Angle { rise: 1000, run: 1000 });
}

#[test]
fn vignetting() {
    // a quarter of the light is a loss of exactly two stops.
    let v: i64 = stop_equivalent(Frac { num: 1, den: 4 });
    assert_eq!(v, 6);
}

#[test]
fn two_stops() {
    // f/64 is two stops darker than f/32.
    let diff: i64 = delta_thirds(32, 64);
    assert_eq!(diff, 6);
}

#[test]
fn four_stops() {
    // f/64 is four stops darker than f/16.
    let diff: i64 = delta_thirds(16, 64);
    assert_eq!(diff, 12);
}

#[test]
fn coverage() {
    // at 45 degrees the coverage radius equals the focal length: 50 mm.
    let cr: u64 = coverage_radius(50_000, Angle { rise: 1, run: 1 });
    assert_eq!(cr, 50_000);
}

#[test]
fn needed_f() {
    // at 45 degrees the needed focal length equals the radius: 22 mm.
    let nf: u64 = needed_focallength(22_000, Angle { rise: 1, run: 1 });
    assert_eq!(nf, 22_000);
}

#[test]
fn proj_diameter() {
    // a 3 mm by 4 mm rectangle has a 5 mm diagonal.
    let pd: u64 = projection_diameter(30, 40);
    assert_eq!(pd, 5);
}

#[test]
fn vignetting_pair_at_45_degrees() {
    // the edge ray towards a film circle as wide as the focal length is
    // long leaves the axis at 45 degrees, and cos^4 of 45 degrees is a
    // quarter: two stops of falloff.
    let (att, ang): (Frac, Angle) = calc_vignetting(1, 1);
    assert_eq!(att, Frac { num: 1, den: 4 });
    assert!(ang.is_half_right());
    assert_eq!(stop_equivalent(att), 6);
}

#[test]
fn vignetting_on_a_35mm_sized_plate() {
    // 50 mm focal length towards a 22 mm film radius: the attenuation is
    // 50^4 over (50^2 + 22^2)^2, about 0.70, within a third of a stop of
    // no loss.
    let (att, ang): (Frac, Angle) = calc_vignetting(50, 22);
    assert_eq!(att, Frac { num: 6_250_000, den: 8_904_256 });
    assert_eq!(ang, Angle { rise: 22, run: 50 });
    assert_eq!(stop_equivalent(att), 1);
}

#[test]
fn optimalsize_with_magnification() {
    // a close subject at magnification one doubles the denominator under
    // the root: the optimal diameter shrinks by the square root of two.
    let os: u64 = calc_optimalsize(50_000, 550, 156, 1000);
    assert_eq!(os, 182);
}

#[test]
fn viewangle_saturates_at_zero_thickness() {
    // an infinitely thin plate passes rays at grazing angles: the
    // arctangent saturates at the right angle.
    let va: Angle = calc_viewangle(300, 0);
    assert!(va.is_right_angle());
}

#[test]
fn projection_of_common_formats() {
    // 24 mm by 36 mm: the diagonal is 43.27 mm, covered by a 44 mm circle.
    assert_eq!(projection_diameter(240, 360), 44);
    // 60 mm by 60 mm: the diagonal is 84.85 mm, covered by 85 mm.
    assert_eq!(projection_diameter(600, 600), 85);
    // 4 by 5 inches, held exactly in tenths: 101.6 mm by 127 mm needs 163 mm.
    assert_eq!(projection_diameter(1016, 1270), 163);
}
