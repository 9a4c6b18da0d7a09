//! A fraction of light, held exactly as a ratio of integers.

use vstd::prelude::*;

verus! {

/// An exact non-negative ratio `num / den`. The library uses it for light
/// fractions: 1/1 is no loss, 1/4 is a quarter of the light, 0 is total
/// darkness.
#[derive(Clone, Copy, Debug, PartialEq, Eq, Structural)]
pub struct Frac {
    /// Numerator of the ratio.
    pub num: u64,
    /// Denominator of the ratio; always positive.
    pub den: u64,
}

impl Frac {
    /// The denominator must be positive for the ratio to denote a value.
    pub open spec fn wf(self) -> bool {
        self.den >= 1
    }

    /// The whole: a ratio equal to one.
    pub fn one() -> (r: Frac)
        ensures
            r.num == 1,
            r.den == 1,
            r.wf(),
    {
        Frac { num: 1, den: 1 }
    }

    /// Whether this ratio is strictly smaller than `other`, decided exactly
    /// on the cross products.
    pub fn lt(&self, other: &Frac) -> (r: bool)
        requires
            self.wf(),
            other.wf(),
        ensures
            r == ((self.num * other.den) < (other.num * self.den)),
    {
        proof {
            assert((self.num as int) * (other.den as int) <= u64::MAX * u64::MAX
                && (other.num as int) * (self.den as int) <= u64::MAX * u64::MAX)
                by (nonlinear_arith)
                requires
                    self.num <= u64::MAX,
                    other.den <= u64::MAX,
                    other.num <= u64::MAX,
                    self.den <= u64::MAX,
            ;
        }
        let left: u128 = (self.num as u128) * (other.den as u128);
        let right: u128 = (other.num as u128) * (self.den as u128);
        left < right
    }
}

} // verus!
