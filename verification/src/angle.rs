//! An angle in the first quadrant, held exactly by the rise and run of its
//! tangent.

use vstd::prelude::*;

verus! {

/// An angle between 0 and 90 degrees inclusive, represented by a pair whose
/// ratio `rise / run` is the exact tangent of the angle.
///
/// A zero `run` with a positive `rise` stands for the right angle itself,
/// the saturation value of the arctangent; a zero `rise` with a positive
/// `run` stands for the zero angle. Two values with proportional pairs
/// denote the same geometric angle; 45 degrees is exactly the angles whose
/// rise equals their run. The tangent representation keeps the view-angle
/// and coverage formulas exact: converting to degrees is a display concern
/// left to callers.
#[derive(Clone, Copy, Debug, PartialEq, Eq, Structural)]
pub struct Angle {
    /// Numerator of the tangent: the side opposite the angle.
    pub rise: u64,
    /// Denominator of the tangent: the side adjacent to the angle.
    pub run: u64,
}

impl Angle {
    /// A degenerate pair with both legs zero denotes no angle at all.
    pub open spec fn wf(self) -> bool {
        self.rise >= 1 || self.run >= 1
    }

    /// The zero angle: a ray along the axis, with no rise.
    pub fn is_zero(&self) -> (r: bool)
        requires
            self.wf(),
        ensures
            r == (self.rise == 0),
    {
        self.rise == 0
    }

    /// The right angle, where the tangent saturates: no run.
    pub fn is_right_angle(&self) -> (r: bool)
        requires
            self.wf(),
        ensures
            r == (self.run == 0),
    {
        self.run == 0
    }

    /// Exactly 45 degrees: half of a right angle, the angle whose tangent
    /// is one.
    pub fn is_half_right(&self) -> (r: bool)
        requires
            self.wf(),
        ensures
            r == (self.rise == self.run && self.rise >= 1),
    {
        self.rise == self.run && self.rise >= 1
    }

    /// Whether this angle is strictly smaller than `other`, decided exactly
    /// on the cross products of the two tangents. The tangent grows with
    /// the angle on the first quadrant, so the comparison of the ratios is
    /// the comparison of the angles.
    pub fn lt(&self, other: &Angle) -> (r: bool)
        requires
            self.wf(),
            other.wf(),
        ensures
            r == ((self.rise * other.run) < (other.rise * self.run)),
    {
        proof {
            assert((self.rise as int) * (other.run as int) <= u64::MAX * u64::MAX
                && (other.rise as int) * (self.run as int) <= u64::MAX * u64::MAX)
                by (nonlinear_arith)
                requires
                    self.rise <= u64::MAX,
                    other.run <= u64::MAX,
                    other.rise <= u64::MAX,
                    self.run <= u64::MAX,
            ;
        }
        let left: u128 = (self.rise as u128) * (other.run as u128);
        let right: u128 = (other.rise as u128) * (self.run as u128);
        left < right
    }
}

} // verus!
