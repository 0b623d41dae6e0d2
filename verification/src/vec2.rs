//! Planar vector arithmetic over the `Scalar` number model: the
//! component-wise operations, the stable magnitude and distance, and
//! the zero-vector normalisation policy — a vector of magnitude
//! exactly zero normalises to itself instead of dividing by zero.

use vstd::prelude::*;

use crate::scalar::Scalar;
use crate::scalar::spec_div;
use crate::scalar::spec_hypot;
use crate::scalar::spec_is_finite;
use crate::scalar::spec_minus;
use crate::scalar::spec_one;
use crate::scalar::spec_plus;
use crate::scalar::spec_times;
use crate::scalar::spec_zero;
use crate::scalar::units_of;
use crate::scalar::wf;

verus! {

/// An ordered pair of scalar components; an immutable value type, all
/// operations return new values.
#[derive(Clone, Copy, Debug, PartialEq, Eq, Structural)]
pub struct Vec2 {
    pub x: Scalar,
    pub y: Scalar,
}

pub open spec fn spec_vec_zero() -> Vec2 {
    Vec2 { x: spec_zero(), y: spec_zero() }
}

pub open spec fn spec_added(a: Vec2, b: Vec2) -> Vec2 {
    Vec2 { x: spec_plus(a.x, b.x), y: spec_plus(a.y, b.y) }
}

pub open spec fn spec_subtracted(a: Vec2, b: Vec2) -> Vec2 {
    Vec2 { x: spec_minus(a.x, b.x), y: spec_minus(a.y, b.y) }
}

pub open spec fn spec_scaled(v: Vec2, k: Scalar) -> Vec2 {
    Vec2 { x: spec_times(v.x, k), y: spec_times(v.y, k) }
}

pub open spec fn spec_mag(v: Vec2) -> Scalar {
    spec_hypot(v.x, v.y)
}

pub open spec fn spec_dist(a: Vec2, b: Vec2) -> Scalar {
    spec_hypot(spec_minus(b.x, a.x), spec_minus(b.y, a.y))
}

/// The zero-vector policy: a magnitude of exactly zero yields the zero
/// vector, anything else scales by the reciprocal of the magnitude.
pub open spec fn spec_normalized(v: Vec2) -> Vec2 {
    if spec_mag(v) == spec_zero() {
        spec_vec_zero()
    } else {
        spec_scaled(v, spec_div(spec_one(), spec_mag(v)))
    }
}

pub open spec fn spec_with_mag(v: Vec2, m: Scalar) -> Vec2 {
    spec_scaled(spec_normalized(v), m)
}

pub open spec fn spec_vec_is_finite(v: Vec2) -> bool {
    spec_is_finite(v.x) && spec_is_finite(v.y)
}

/// Both components are well formed; every operation of this crate
/// only produces such vectors.
pub open spec fn spec_vec_wf(v: Vec2) -> bool {
    wf(v.x) && wf(v.y)
}

/// Squared magnitude of a finite vector, exactly, in squared units;
/// the magnitude itself is its rounded square root, so comparisons of
/// lengths are sharpest at the squares.
pub open spec fn spec_mag_sq_units(v: Vec2) -> int {
    units_of(v.x) * units_of(v.x) + units_of(v.y) * units_of(v.y)
}

impl Vec2 {
    pub fn new(x: Scalar, y: Scalar) -> (r: Vec2)
        ensures
            r == (Vec2 { x, y }),
    {
        Vec2 { x, y }
    }

    pub fn zero() -> (r: Vec2)
        ensures
            r == spec_vec_zero(),
    {
        Vec2 { x: Scalar::zero(), y: Scalar::zero() }
    }

    /// Euclidean distance to `other`, through the stable hypotenuse of
    /// the component differences.
    pub fn dist(&self, other: &Vec2) -> (r: Scalar)
        ensures
            r == spec_dist(*self, *other),
    {
        other.x.minus(self.x).hypot(other.y.minus(self.y))
    }

    /// Component-wise multiplication by a scalar.
    pub fn scaled(&self, scalar: Scalar) -> (r: Vec2)
        ensures
            r == spec_scaled(*self, scalar),
    {
        Vec2 { x: self.x.times(scalar), y: self.y.times(scalar) }
    }

    /// Component-wise sum.
    pub fn added(&self, other: &Vec2) -> (r: Vec2)
        ensures
            r == spec_added(*self, *other),
    {
        Vec2 { x: self.x.plus(other.x), y: self.y.plus(other.y) }
    }

    /// Component-wise difference.
    pub fn subtracted(&self, other: &Vec2) -> (r: Vec2)
        ensures
            r == spec_subtracted(*self, *other),
    {
        Vec2 { x: self.x.minus(other.x), y: self.y.minus(other.y) }
    }

    /// Magnitude, through the stable hypotenuse of the components.
    pub fn mag(&self) -> (r: Scalar)
        ensures
            r == spec_mag(*self),
    {
        self.x.hypot(self.y)
    }

    /// Direction of the vector at unit length, except that a vector of
    /// magnitude exactly zero yields the zero vector rather than a
    /// division by zero.
    pub fn normalized(&self) -> (r: Vec2)
        ensures
            r == spec_normalized(*self),
    {
        let mag = self.mag();
        if mag == Scalar::Finite(0) {
            Vec2::zero()
        } else {
            self.scaled(Scalar::one().divided_by(mag))
        }
    }

    /// The vector rescaled to the given magnitude; inherits the
    /// zero-vector policy, so a zero vector stays zero whatever the
    /// target magnitude.
    pub fn with_mag(&self, mag: Scalar) -> (r: Vec2)
        ensures
            r == spec_with_mag(*self, mag),
    {
        self.normalized().scaled(mag)
    }

    /// True exactly when both components are finite.
    pub fn is_finite(&self) -> (r: bool)
        ensures
            r == spec_vec_is_finite(*self),
    {
        self.x.is_finite() && self.y.is_finite()
    }
}

} // verus!
