//! The pinhole optics formulas.
//!
//! Units are scaled integers, chosen so that every slider value of a
//! pinhole design is held exactly: pinhole-scale lengths in micrometers,
//! film-scale lengths in millimeters or tenths of a millimeter, the
//! Rayleigh factor in hundredths, magnification in thousandths, and
//! quantities of light in third-stops. Each parameter's unit is given at
//! the function.

use vstd::prelude::*;
use vstd::arithmetic::div_mod::lemma_fundamental_div_mod;
use vstd::arithmetic::div_mod::lemma_mod_bound;
use crate::angle::Angle;
use crate::arith::ilog2_floor;
use crate::arith::is_log2_floor;
use crate::arith::is_sqrt_floor;
use crate::arith::isqrt;
use crate::arith::isqrt_ceil;
use crate::frac::Frac;
use crate::laws::lemma_log2_floor_of_one;
use crate::laws::lemma_log2_floor_unique;

verus! {

/// The radicand of the optimal-diameter formula, scaled so that its integer
/// square root rounded down is the optimal diameter in micrometers:
/// with the focal length in micrometers, the wavelength in nanometers, the
/// Rayleigh factor in hundredths and the magnification in thousandths, the
/// optimal diameter in millimeters is
/// `(rayleigh / 100) * sqrt((wavelength / 10^6) * (focallength / 1000) * (1000 / (1000 + magnification)))`,
/// and multiplying by 1000 and moving everything under the root gives
/// `sqrt(100 * rayleigh^2 * wavelength * focallength / (10^6 * (1000 + magnification)))`
/// micrometers.
pub open spec fn optimal_size_scaled_sq(
    focallength: int,
    wavelength: int,
    rayleigh: int,
    magnification: int,
) -> int {
    (100 * rayleigh * rayleigh * wavelength * focallength) / (1_000_000 * (1000 + magnification))
}

/// `r` is the diameter in millimeters, rounded up to the next whole
/// millimeter, of the smallest circle that covers a rectangle whose squared
/// diagonal is `s` square tenths of a millimeter.
pub open spec fn is_projection_diameter(s: int, r: int) -> bool {
    &&& 1 <= r
    &&& s <= 100 * r * r
    &&& 100 * (r - 1) * (r - 1) < s
}

/// The diffraction-limited optimal pinhole diameter, by the Rayleigh
/// approximation `diameter = rayleigh * sqrt(wavelength * focallength / (1 + magnification))`.
///
/// `ph_focallength` is in micrometers, `ph_wavelength` in nanometers,
/// `ph_rayleighfactor` in hundredths (156 is the usual 1.56), and
/// `ph_magnification` in thousandths (0 is a subject at infinity). The
/// result is the optimal diameter in micrometers, rounded down: the
/// returned value is exactly the integer square root of
/// [`optimal_size_scaled_sq`], which pins it completely.
pub fn calc_optimalsize(
    ph_focallength: u64,
    ph_wavelength: u64,
    ph_rayleighfactor: u64,
    ph_magnification: u64,
) -> (r: u64)
    requires
        1 <= ph_focallength <= 1_000_000_000,
        1 <= ph_wavelength <= 10_000_000,
        1 <= ph_rayleighfactor <= 100_000,
        ph_magnification <= 1_000_000_000,
    ensures
        is_sqrt_floor(
            optimal_size_scaled_sq(
                ph_focallength as int,
                ph_wavelength as int,
                ph_rayleighfactor as int,
                ph_magnification as int,
            ),
            r as int,
        ),
{
    let c: u128 = ph_rayleighfactor as u128;
    let w: u128 = ph_wavelength as u128;
    let f: u128 = ph_focallength as u128;
    assert(100 * c * c <= 1_000_000_000_000) by (nonlinear_arith)
        requires
            c <= 100_000,
    ;
    let csq: u128 = 100 * c * c;
    assert(csq * w <= 10_000_000_000_000_000_000) by (nonlinear_arith)
        requires
            csq <= 1_000_000_000_000,
            w <= 10_000_000,
    ;
    let num0: u128 = csq * w;
    assert(num0 * f <= 0x4000_0000_0000_0000_0000_0000_0000_0000 - 1) by (nonlinear_arith)
        requires
            num0 <= 10_000_000_000_000_000_000,
            f <= 1_000_000_000,
    ;
    let num: u128 = num0 * f;
    let den: u128 = 1_000_000 * (1000 + ph_magnification as u128);
    let q: u128 = num / den;
    proof {
        lemma_fundamental_div_mod(num as int, den as int);
        lemma_mod_bound(num as int, den as int);
        assert(q <= num) by (nonlinear_arith)
            requires
                num == den * q + (num as int % den as int),
                num as int % den as int >= 0,
                den >= 1,
                q >= 0,
        ;
    }
    let root: u128 = isqrt(q);
    assert(root < 0x8000_0000_0000_0000) by (nonlinear_arith)
        requires
            root * root < 0x4000_0000_0000_0000_0000_0000_0000_0000,
    ;
    root as u64
}

/// Half of the total angular field of view of the pinhole channel: the
/// angle whose tangent is `diameter / thickness`, held exactly by that
/// ratio. Callers wanting the full field of view double the angle.
///
/// Both lengths are in micrometers (any one unit for both would do, the
/// ratio being dimensionless). A zero thickness is allowed and yields the
/// right angle, the saturation value of the arctangent; callers that
/// exclude it get an angle strictly below 90 degrees.
pub fn calc_viewangle(ph_diameter: u64, ph_thickness: u64) -> (r: Angle)
    requires
        ph_diameter >= 1,
    ensures
        r.rise == ph_diameter,
        r.run == ph_thickness,
        r.wf(),
{
    Angle { rise: ph_diameter, run: ph_thickness }
}

/// Natural (cosine-fourth) vignetting at the edge of the projected circle
/// on a flat image plane.
///
/// `ph_focallength` and `film_radius` are in millimeters; `film_radius` is
/// the radius, not the diameter, of the desired projected circle. The
/// off-axis ray that reaches the edge of the circle leaves the axis by the
/// angle whose tangent is `film_radius / ph_focallength` (the complement of
/// the angle the classical derivation takes the arctangent of), and the
/// light reaching the edge falls off by the fourth power of its cosine.
/// For that angle, `cos^2 = focal^2 / (focal^2 + radius^2)` exactly, so the
/// attenuation fraction is returned as the exact ratio
/// `focal^4 / (focal^2 + radius^2)^2`, together with the off-axis angle.
pub fn calc_vignetting(ph_focallength: u64, film_radius: u64) -> (r: (Frac, Angle))
    requires
        1 <= ph_focallength <= 46_340,
        1 <= film_radius <= 46_340,
    ensures
        r.0.num == ph_focallength * ph_focallength * ph_focallength * ph_focallength,
        r.0.den == (ph_focallength * ph_focallength + film_radius * film_radius) * (
        ph_focallength * ph_focallength + film_radius * film_radius),
        r.0.num <= r.0.den,
        r.0.wf(),
        r.1.rise == film_radius,
        r.1.run == ph_focallength,
        r.1.wf(),
{
    let f: u64 = ph_focallength;
    let fr: u64 = film_radius;
    assert(1 <= f * f <= 2_147_395_600 && 1 <= fr * fr <= 2_147_395_600) by (nonlinear_arith)
        requires
            1 <= f <= 46_340,
            1 <= fr <= 46_340,
    ;
    let fsq: u64 = f * f;
    let rsq: u64 = fr * fr;
    let s: u64 = fsq + rsq;
    assert(s * s <= 18_446_241_197_371_480_900 && fsq * fsq <= s * s && 1 <= fsq * fsq)
        by (nonlinear_arith)
        requires
            1 <= fsq,
            0 <= rsq,
            s == fsq + rsq,
            s <= 4_294_791_200,
    ;
    proof {
        assert(fsq * fsq == f * f * f * f) by (nonlinear_arith)
            requires
                fsq == f * f,
        ;
    }
    let att: Frac = Frac { num: fsq * fsq, den: s * s };
    let ang: Angle = Angle { rise: fr, run: f };
    (att, ang)
}

/// The light loss of a transmission fraction, in third-stops, rounded
/// down: `-log2(fract)` stops, returned as the exact floor of
/// `3 * log2(den / num)` third-stops. Divide by three for whole stops.
///
/// A fraction of one loses nothing; a fraction of 1/4 loses two stops,
/// returned as 6 third-stops. A zero fraction means total darkness: the
/// loss grows without bound, and the greatest representable value is
/// returned as the sentinel for infinity.
pub fn stop_equivalent(fract: Frac) -> (r: i64)
    requires
        fract.wf(),
        fract.num <= 0x400_0000_0000,
        fract.den <= 0x400_0000_0000,
    ensures
        fract.num == 0 ==> r == i64::MAX,
        fract.num >= 1 ==> is_log2_floor(
            fract.den * fract.den * fract.den,
            fract.num * fract.num * fract.num,
            r as int,
        ),
        fract.num == fract.den ==> r == 0,
{
    if fract.num == 0 {
        return i64::MAX;
    }
    let n: u128 = fract.num as u128;
    let d: u128 = fract.den as u128;
    assert(1 <= n * n && n * n <= 0x10_0000_0000_0000_0000_0000 && 1 <= n * n * n
        < 0x8000_0000_0000_0000_0000_0000_0000_0000 && 1 <= d * d && d * d
        <= 0x10_0000_0000_0000_0000_0000 && 1 <= d * d * d
        < 0x8000_0000_0000_0000_0000_0000_0000_0000) by (nonlinear_arith)
        requires
            1 <= n <= 0x400_0000_0000,
            1 <= d <= 0x400_0000_0000,
    ;
    let ncub: u128 = n * n * n;
    let dcub: u128 = d * d * d;
    let r: i64 = ilog2_floor(dcub, ncub);
    proof {
        if fract.num == fract.den {
            lemma_log2_floor_of_one(dcub as int);
            lemma_log2_floor_unique(dcub as int, dcub as int, r as int, 0);
        }
    }
    r
}

/// The number of photographic stops between two f-stop values, in
/// third-stops, rounded down: `2 * log2(fstop1 / fstop0)` stops, returned
/// as the exact floor of `6 * log2(fstop1 / fstop0)` third-stops. Divide
/// by three for whole stops.
///
/// The sign convention: positive when `fstop1` is the larger f-number,
/// that is, the smaller aperture relative to the focal length, passing
/// less light. Equal f-stops are exactly zero stops apart.
pub fn delta_thirds(fstop0: u64, fstop1: u64) -> (r: i64)
    requires
        1 <= fstop0 <= 0x20_0000,
        1 <= fstop1 <= 0x20_0000,
    ensures
        is_log2_floor(
            fstop1 * fstop1 * fstop1 * fstop1 * fstop1 * fstop1,
            fstop0 * fstop0 * fstop0 * fstop0 * fstop0 * fstop0,
            r as int,
        ),
        fstop0 == fstop1 ==> r == 0,
{
    let p0: u128 = sixth_power(fstop0);
    let p1: u128 = sixth_power(fstop1);
    let r: i64 = ilog2_floor(p1, p0);
    proof {
        if fstop0 == fstop1 {
            lemma_log2_floor_of_one(p0 as int);
            lemma_log2_floor_unique(p0 as int, p0 as int, r as int, 0);
        }
    }
    r
}

/// The sixth power of an f-stop value, exactly.
fn sixth_power(x: u64) -> (r: u128)
    requires
        1 <= x <= 0x20_0000,
    ensures
        r == x * x * x * x * x * x,
        1 <= r < 0x8000_0000_0000_0000_0000_0000_0000_0000,
{
    assert(1 <= x * x <= 0x400_0000_0000) by (nonlinear_arith)
        requires
            1 <= x <= 0x20_0000,
    ;
    let xx: u128 = (x as u128) * (x as u128);
    assert(1 <= xx * xx && xx * xx <= 0x10_0000_0000_0000_0000_0000 && 1 <= xx * xx * xx
        < 0x8000_0000_0000_0000_0000_0000_0000_0000 && xx * xx * xx == (x as int) * (x as int) * (
    x as int) * (x as int) * (x as int) * (x as int)) by (nonlinear_arith)
        requires
            1 <= x <= 0x20_0000,
            xx == x * x,
    ;
    xx * xx * xx
}

/// The radius of the circle of coverage on the image plane: a pinhole
/// channel with the given half view angle illuminates, at the given focal
/// length, a circle of radius `focallength * tan(viewangle)`, which on the
/// tangent representation is the exact ratio
/// `focallength * rise / run`, here rounded down to a whole unit.
///
/// The focal length and the result share one unit of length (micrometers
/// throughout this library). The angle must lie strictly below the right
/// angle, where the coverage grows without bound.
pub fn coverage_radius(ph_focallength: u64, ph_viewangle: Angle) -> (r: u64)
    requires
        ph_viewangle.wf(),
        ph_viewangle.run >= 1,
        ph_focallength * ph_viewangle.rise / (ph_viewangle.run as int) <= u64::MAX,
    ensures
        r == ph_focallength * ph_viewangle.rise / (ph_viewangle.run as int),
        r * ph_viewangle.run <= ph_focallength * ph_viewangle.rise < (r + 1) * ph_viewangle.run,
{
    let prod: u128 = mul_wide(ph_focallength, ph_viewangle.rise);
    let q: u128 = prod / (ph_viewangle.run as u128);
    proof {
        lemma_fundamental_div_mod(prod as int, ph_viewangle.run as int);
        lemma_mod_bound(prod as int, ph_viewangle.run as int);
        assert((q * ph_viewangle.run <= prod < (q + 1) * ph_viewangle.run) && q * ph_viewangle.run
            == ph_viewangle.run * q) by (nonlinear_arith)
            requires
                prod == ph_viewangle.run * q + (prod as int % ph_viewangle.run as int),
                0 <= (prod as int % (ph_viewangle.run as int)) < ph_viewangle.run,
        ;
    }
    q as u64
}

/// The focal length needed so that the given half view angle exactly
/// covers a circle of the given radius, by the complementary-angle
/// convention: `radius * tan(90 degrees - viewangle)`, which on the
/// tangent representation is the exact ratio `radius * run / rise`, here
/// rounded down to a whole unit.
///
/// The radius and the result share one unit of length (micrometers
/// throughout this library). The angle must be positive: at the zero
/// angle the needed focal length grows without bound. This is
/// deliberately not the inverse of [`coverage_radius`] except at 45
/// degrees: the two formulas encode two different physical framings, one
/// reading the angle directly, the other its complement.
pub fn needed_focallength(ph_radius: u64, ph_viewangle: Angle) -> (r: u64)
    requires
        ph_viewangle.wf(),
        ph_viewangle.rise >= 1,
        ph_radius * ph_viewangle.run / (ph_viewangle.rise as int) <= u64::MAX,
    ensures
        r == ph_radius * ph_viewangle.run / (ph_viewangle.rise as int),
        r * ph_viewangle.rise <= ph_radius * ph_viewangle.run < (r + 1) * ph_viewangle.rise,
{
    let prod: u128 = mul_wide(ph_radius, ph_viewangle.run);
    let q: u128 = prod / (ph_viewangle.rise as u128);
    proof {
        lemma_fundamental_div_mod(prod as int, ph_viewangle.rise as int);
        lemma_mod_bound(prod as int, ph_viewangle.rise as int);
        assert((q * ph_viewangle.rise <= prod < (q + 1) * ph_viewangle.rise) && q
            * ph_viewangle.rise == ph_viewangle.rise * q) by (nonlinear_arith)
            requires
                prod == ph_viewangle.rise * q + (prod as int % ph_viewangle.rise as int),
                0 <= (prod as int % (ph_viewangle.rise as int)) < ph_viewangle.rise,
        ;
    }
    q as u64
}

/// The full product of two unsigned words, exactly.
fn mul_wide(x: u64, y: u64) -> (r: u128)
    ensures
        r == x * y,
{
    proof {
        assert((x as int) * (y as int) <= u64::MAX * u64::MAX) by (nonlinear_arith)
            requires
                x <= u64::MAX,
                y <= u64::MAX,
        ;
    }
    (x as u128) * (y as u128)
}

/// The diameter, in whole millimeters rounded up, of the smallest circle
/// that covers a rectangular film format of `x` by `y` tenths of a
/// millimeter: the ceiling of `sqrt(x^2 + y^2) / 10`.
///
/// Tenths of a millimeter hold the common inch-based formats exactly; the
/// rounding direction is deliberate, so that the computed projection
/// circle always fully covers the format rather than marginally
/// undershooting it.
pub fn projection_diameter(x: u64, y: u64) -> (r: u64)
    requires
        1 <= x <= 1_000_000_000,
        1 <= y <= 1_000_000_000,
    ensures
        is_projection_diameter(x * x + y * y, r as int),
{
    assert(1 <= (x as int) * (x as int) <= 1_000_000_000_000_000_000 && 1 <= (y as int) * (
    y as int) <= 1_000_000_000_000_000_000) by (nonlinear_arith)
        requires
            1 <= x <= 1_000_000_000,
            1 <= y <= 1_000_000_000,
    ;
    let s: u128 = (x as u128) * (x as u128) + (y as u128) * (y as u128);
    let c: u128 = isqrt_ceil(s);
    proof {
        assert(c <= 2_000_000_000) by (nonlinear_arith)
            requires
                c >= 1,
                (c - 1) * (c - 1) < 2_000_000_000_000_000_000,
        ;
    }
    let r: u128 = (c + 9) / 10;
    proof {
        assert(10 * r <= c + 9 < 10 * r + 10);
        assert(c * c <= (10 * r) * (10 * r) && (10 * r) * (10 * r) == 100 * r * r)
            by (nonlinear_arith)
            requires
                0 <= c <= 10 * r,
        ;
        assert((10 * (r - 1)) * (10 * (r - 1)) <= (c - 1) * (c - 1) && (10 * (r - 1)) * (10 * (r
            - 1)) == 100 * (r - 1) * (r - 1)) by (nonlinear_arith)
            requires
                0 <= 10 * (r - 1) <= c - 1,
        ;
    }
    r as u64
}

/// The magnification, in thousandths, of a subject at the given distance:
/// `focallength / (distance * 1000)` for a focal length in millimeters,
/// which with the focal length in micrometers and the distance in
/// millimeters is exactly `ph_focallength / ph_subjectdist`, rounded down.
///
/// The result is a derived field: callers recompute it from its inputs
/// after any change rather than storing it, so it cannot drift. A distant
/// subject gives zero, the "object at infinity" terminal case of
/// [`calc_optimalsize`].
pub fn magnification(ph_focallength: u64, ph_subjectdist: u64) -> (r: u64)
    requires
        ph_subjectdist >= 1,
    ensures
        r == ph_focallength / ph_subjectdist,
        r * ph_subjectdist <= ph_focallength < (r + 1) * ph_subjectdist,
{
    let q: u64 = ph_focallength / ph_subjectdist;
    proof {
        lemma_fundamental_div_mod(ph_focallength as int, ph_subjectdist as int);
        lemma_mod_bound(ph_focallength as int, ph_subjectdist as int);
        assert((q * ph_subjectdist <= ph_focallength < (q + 1) * ph_subjectdist) && q
            * ph_subjectdist == ph_subjectdist * q) by (nonlinear_arith)
            requires
                ph_focallength == ph_subjectdist * q + (ph_focallength as int % ph_subjectdist as int),
                0 <= (ph_focallength as int % (ph_subjectdist as int)) < ph_subjectdist,
        ;
    }
    q
}

} // verus!

