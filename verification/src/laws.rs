//! The general laws of the library, each proved rather than asserted.
//!
//! Every formula of this library is pure: its contract characterises the
//! result as the one value satisfying a predicate of the inputs alone. The
//! uniqueness lemmas here make that explicit — two results for the same
//! inputs coincide, so repeated calls cannot drift. Alongside them stand
//! the order law of the stop equivalence and the forty-five-degree
//! symmetry of the two coverage formulas.

use vstd::prelude::*;
use vstd::arithmetic::div_mod::lemma_div_by_multiple;
use vstd::arithmetic::power2::lemma2_to64;
use vstd::arithmetic::power2::lemma_pow2_adds;
use vstd::arithmetic::power2::lemma_pow2_pos;
use vstd::arithmetic::power2::pow2;
use crate::angle::Angle;
use crate::arith::is_log2_floor;
use crate::arith::is_sqrt_ceil;
use crate::arith::is_sqrt_floor;
use crate::frac::Frac;
use crate::optics::is_projection_diameter;

verus! {

/// A number has one square root rounded down: the characterisation behind
/// [`crate::optics::calc_optimalsize`] admits a single value, so equal
/// inputs give equal outputs.
pub proof fn lemma_sqrt_floor_unique(n: int, r1: int, r2: int)
    requires
        is_sqrt_floor(n, r1),
        is_sqrt_floor(n, r2),
    ensures
        r1 == r2,
{
    assert(r1 == r2) by (nonlinear_arith)
        requires
            0 <= r1,
            r1 * r1 <= n,
            n < (r1 + 1) * (r1 + 1),
            0 <= r2,
            r2 * r2 <= n,
            n < (r2 + 1) * (r2 + 1),
    ;
}

/// A number has one square root rounded up.
pub proof fn lemma_sqrt_ceil_unique(n: int, r1: int, r2: int)
    requires
        is_sqrt_ceil(n, r1),
        is_sqrt_ceil(n, r2),
    ensures
        r1 == r2,
{
    assert(r1 == r2) by (nonlinear_arith)
        requires
            0 <= r1,
            n <= r1 * r1,
            (r1 >= 1 ==> (r1 - 1) * (r1 - 1) < n),
            (r1 == 0 ==> n <= 0),
            0 <= r2,
            n <= r2 * r2,
            (r2 >= 1 ==> (r2 - 1) * (r2 - 1) < n),
            (r2 == 0 ==> n <= 0),
    ;
}

/// A format has one projection diameter: the characterisation behind
/// [`crate::optics::projection_diameter`] admits a single value.
pub proof fn lemma_projection_diameter_unique(s: int, r1: int, r2: int)
    requires
        is_projection_diameter(s, r1),
        is_projection_diameter(s, r2),
    ensures
        r1 == r2,
{
    assert(r1 == r2) by (nonlinear_arith)
        requires
            1 <= r1,
            s <= 100 * r1 * r1,
            100 * (r1 - 1) * (r1 - 1) < s,
            1 <= r2,
            s <= 100 * r2 * r2,
            100 * (r2 - 1) * (r2 - 1) < s,
    ;
}

/// A ratio of one has logarithm zero.
pub proof fn lemma_log2_floor_of_one(x: int)
    requires
        x >= 1,
    ensures
        is_log2_floor(x, x, 0),
{
    lemma2_to64();
    assert(x * pow2(0) == x && x < x * pow2(1)) by (nonlinear_arith)
        requires
            pow2(0) == 1,
            pow2(1) == 2,
            x >= 1,
    ;
}

/// The characterisation of a rounded-down logarithm, rescaled by a common
/// power of two, so that ratios with logarithms of either sign can be
/// compared over the naturals.
proof fn lemma_log2_floor_scaled(a: int, b: int, r: int, s: int)
    requires
        a >= 1,
        b >= 1,
        is_log2_floor(a, b, r),
        s >= 0,
        r + s >= 0,
    ensures
        b * pow2((r + s) as nat) <= a * pow2(s as nat),
        a * pow2(s as nat) < b * pow2((r + s + 1) as nat),
{
    lemma_pow2_pos(s as nat);
    if r >= 0 {
        lemma_pow2_adds(r as nat, s as nat);
        lemma_pow2_adds((r + 1) as nat, s as nat);
        assert(b * pow2((r + s) as nat) <= a * pow2(s as nat)) by (nonlinear_arith)
            requires
                pow2((r + s) as nat) == pow2(r as nat) * pow2(s as nat),
                b * pow2(r as nat) <= a,
                pow2(s as nat) >= 1,
        ;
        assert(a * pow2(s as nat) < b * pow2((r + s + 1) as nat)) by (nonlinear_arith)
            requires
                pow2((r + s + 1) as nat) == pow2((r + 1) as nat) * pow2(s as nat),
                a < b * pow2((r + 1) as nat),
                pow2(s as nat) >= 1,
        ;
    } else {
        lemma_pow2_adds((-r) as nat, (r + s) as nat);
        lemma_pow2_pos((r + s) as nat);
        assert(b * pow2((r + s) as nat) <= a * pow2(s as nat)) by (nonlinear_arith)
            requires
                b <= a * pow2((-r) as nat),
                pow2((-r) as nat) * pow2((r + s) as nat) == pow2(s as nat),
                pow2((r + s) as nat) >= 1,
        ;
        lemma_pow2_adds((-r - 1) as nat, (r + s + 1) as nat);
        lemma_pow2_pos((r + s + 1) as nat);
        assert(a * pow2(s as nat) < b * pow2((r + s + 1) as nat)) by (nonlinear_arith)
            requires
                a * pow2((-r - 1) as nat) < b,
                pow2((-r - 1) as nat) * pow2((r + s + 1) as nat) == pow2(s as nat),
                pow2((r + s + 1) as nat) >= 1,
        ;
    }
}

/// The rounded-down logarithm respects the order of the ratios: where
/// `a2 / b2 <= a1 / b1`, the logarithm of the second ratio does not
/// exceed that of the first.
pub proof fn lemma_log2_floor_ordered(a1: int, b1: int, a2: int, b2: int, r1: int, r2: int)
    requires
        a1 >= 1,
        b1 >= 1,
        a2 >= 1,
        b2 >= 1,
        a2 * b1 <= a1 * b2,
        is_log2_floor(a1, b1, r1),
        is_log2_floor(a2, b2, r2),
    ensures
        r2 <= r1,
{
    if r1 < r2 {
        let s: int = if r1 >= 0 {
            0
        } else {
            -r1
        };
        lemma_log2_floor_scaled(a1, b1, r1, s);
        lemma_log2_floor_scaled(a2, b2, r2, s);
        let p: int = pow2(s as nat) as int;
        let q: int = pow2((r2 + s) as nat) as int;
        lemma_pow2_pos(s as nat);
        lemma_pow2_pos((r2 + s) as nat);
        lemma_pow2_adds((r1 + s + 1) as nat, (r2 - r1 - 1) as nat);
        lemma_pow2_pos((r2 - r1 - 1) as nat);
        // the strict upper bound on the first ratio extends to the larger power
        assert(b1 * pow2((r1 + s + 1) as nat) <= b1 * q) by (nonlinear_arith)
            requires
                q == pow2((r1 + s + 1) as nat) * pow2((r2 - r1 - 1) as nat),
                pow2((r2 - r1 - 1) as nat) >= 1,
                pow2((r1 + s + 1) as nat) >= 0,
                b1 >= 1,
        ;
        // a1 * p < b1 * q and b2 * q <= a2 * p together force a1 * b2 < a2 * b1
        assert(a1 * b2 < a2 * b1) by (nonlinear_arith)
            requires
                a1 * p < b1 * q,
                b2 * q <= a2 * p,
                p >= 1,
                q >= 1,
                a1 >= 1,
                b1 >= 1,
                a2 >= 1,
                b2 >= 1,
        ;
    }
}

/// A positive ratio has one rounded-down logarithm: the characterisations
/// behind [`crate::optics::stop_equivalent`] and
/// [`crate::optics::delta_thirds`] admit a single value, so equal inputs
/// give equal outputs.
pub proof fn lemma_log2_floor_unique(a: int, b: int, r1: int, r2: int)
    requires
        a >= 1,
        b >= 1,
        is_log2_floor(a, b, r1),
        is_log2_floor(a, b, r2),
    ensures
        r1 == r2,
{
    lemma_log2_floor_ordered(a, b, a, b, r1, r2);
    lemma_log2_floor_ordered(a, b, a, b, r2, r1);
}

/// The stop equivalence is monotone, decreasing: of two light fractions,
/// the smaller fraction loses at least as many third-stops. Stated over
/// the logarithm characterisations that the contract of
/// [`crate::optics::stop_equivalent`] establishes for its results.
pub proof fn lemma_stop_equivalent_monotone(x: Frac, y: Frac, rx: int, ry: int)
    requires
        x.wf(),
        y.wf(),
        x.num >= 1,
        y.num >= 1,
        x.num * y.den <= y.num * x.den,
        is_log2_floor(x.den * x.den * x.den, x.num * x.num * x.num, rx),
        is_log2_floor(y.den * y.den * y.den, y.num * y.num * y.num, ry),
    ensures
        rx >= ry,
{
    let u: int = x.num * y.den;
    let v: int = y.num * x.den;
    assert(u * u * u <= v * v * v) by (nonlinear_arith)
        requires
            0 <= u,
            u <= v,
    ;
    assert(u * u * u == (x.num * x.num * x.num) * ((y.den * y.den * y.den) as int)
        && v * v * v == (y.num * y.num * y.num) * ((x.den * x.den * x.den) as int))
        by (nonlinear_arith)
        requires
            u == x.num * y.den,
            v == y.num * x.den,
    ;
    assert(x.num * x.num * x.num >= 1 && y.num * y.num * y.num >= 1 && x.den * x.den * x.den >= 1
        && y.den * y.den * y.den >= 1) by (nonlinear_arith)
        requires
            x.num >= 1,
            y.num >= 1,
            x.den >= 1,
            y.den >= 1,
    ;
    lemma_log2_floor_ordered(
        x.den * x.den * x.den,
        x.num * x.num * x.num,
        y.den * y.den * y.den,
        y.num * y.num * y.num,
        rx,
        ry,
    );
}

/// At forty-five degrees — the one angle equal to its own complement — the
/// coverage radius and the needed focal length coincide: both return their
/// length argument unchanged, as the contracts of
/// [`crate::optics::coverage_radius`] and
/// [`crate::optics::needed_focallength`] pin them to
/// `length * rise / run` and `length * run / rise` with equal legs. At any
/// other angle the two formulas diverge: they encode different physical
/// framings and are deliberately not interchangeable.
pub proof fn lemma_symmetry_at_half_right(length: u64, a: Angle, covered: int, needed: int)
    requires
        a.wf(),
        a.rise == a.run,
        a.rise >= 1,
        covered == (length * a.rise) / (a.run as int),
        needed == (length * a.run) / (a.rise as int),
    ensures
        covered == length,
        needed == length,
        covered == needed,
{
    lemma_div_by_multiple(length as int, a.rise as int);
    assert(length * a.rise == (length as int) * (a.rise as int));
}

} // verus!
