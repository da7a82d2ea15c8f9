//! Three-component vectors of `Scalar`s: points, directions and colours.

use crate::scalar::Scalar;
use vstd::prelude::*;

verus! {

/// A point, a direction or a colour.
#[derive(Clone, Copy, Debug, PartialEq, Eq, Structural)]
pub struct Vec3 {
    pub x: Scalar,
    pub y: Scalar,
    pub z: Scalar,
}

impl Vec3 {
    /// The component along `axis`: 0 is x, 1 is y, anything else is z.
    pub open spec fn spec_axis(self, axis: int) -> Scalar {
        if axis == 0 {
            self.x
        } else if axis == 1 {
            self.y
        } else {
            self.z
        }
    }

    /// Whether some component is not a number.
    pub open spec fn has_nan(self) -> bool {
        self.x.nan() || self.y.nan() || self.z.nan()
    }

    pub open spec fn spec_zero() -> Vec3 {
        Vec3 { x: Scalar::spec_zero(), y: Scalar::spec_zero(), z: Scalar::spec_zero() }
    }

    pub open spec fn spec_neg(self) -> Vec3 {
        Vec3 { x: self.x.spec_neg(), y: self.y.spec_neg(), z: self.z.spec_neg() }
    }

    pub open spec fn spec_min(self, other: Vec3) -> Vec3 {
        Vec3 {
            x: self.x.spec_min(other.x),
            y: self.y.spec_min(other.y),
            z: self.z.spec_min(other.z),
        }
    }

    pub open spec fn spec_max(self, other: Vec3) -> Vec3 {
        Vec3 {
            x: self.x.spec_max(other.x),
            y: self.y.spec_max(other.y),
            z: self.z.spec_max(other.z),
        }
    }

    /// The vector with `value` along `axis` and `self`'s components elsewhere.
    pub open spec fn spec_with_axis(self, axis: int, value: Scalar) -> Vec3 {
        if axis == 0 {
            Vec3 { x: value, ..self }
        } else if axis == 1 {
            Vec3 { y: value, ..self }
        } else {
            Vec3 { z: value, ..self }
        }
    }

    /// Every component lies between zero and one, bounds included.
    pub open spec fn within_unit(self) -> bool {
        &&& Scalar::spec_zero().spec_le(self.x) && self.x.spec_le(Scalar::spec_one())
        &&& Scalar::spec_zero().spec_le(self.y) && self.y.spec_le(Scalar::spec_one())
        &&& Scalar::spec_zero().spec_le(self.z) && self.z.spec_le(Scalar::spec_one())
    }

    /// The vector with the given components.
    pub fn new(x: Scalar, y: Scalar, z: Scalar) -> (v: Vec3)
        ensures
            v == (Vec3 { x, y, z }),
    {
        Vec3 { x, y, z }
    }

    /// The vector whose components are all positive zero.
    #[verifier::when_used_as_spec(spec_zero)]
    pub fn zero() -> (v: Vec3)
        ensures
            v == Vec3::spec_zero(),
    {
        Vec3 { x: Scalar::zero(), y: Scalar::zero(), z: Scalar::zero() }
    }

    /// The vector whose components all equal `value`.
    pub fn splat(value: Scalar) -> (v: Vec3)
        ensures
            v == (Vec3 { x: value, y: value, z: value }),
    {
        Vec3 { x: value, y: value, z: value }
    }

    /// The first component.
    pub fn x(self) -> (r: Scalar)
        ensures
            r == self.x,
    {
        self.x
    }

    /// The second component.
    pub fn y(self) -> (r: Scalar)
        ensures
            r == self.y,
    {
        self.y
    }

    /// The third component.
    pub fn z(self) -> (r: Scalar)
        ensures
            r == self.z,
    {
        self.z
    }

    /// The component along `axis`.
    pub fn axis(self, axis: usize) -> (r: Scalar)
        requires
            axis < 3,
        ensures
            r == self.spec_axis(axis as int),
    {
        if axis == 0 {
            self.x
        } else if axis == 1 {
            self.y
        } else {
            self.z
        }
    }

    /// The vector with `value` along `axis` and `self`'s components elsewhere.
    pub fn with_axis(self, axis: usize, value: Scalar) -> (v: Vec3)
        requires
            axis < 3,
        ensures
            v == self.spec_with_axis(axis as int, value),
            v.spec_axis(axis as int) == value,
            forall|other: int|
                0 <= other < 3 && other != axis ==> v.spec_axis(other) == self.spec_axis(other),
    {
        if axis == 0 {
            Vec3 { x: value, y: self.y, z: self.z }
        } else if axis == 1 {
            Vec3 { x: self.x, y: value, z: self.z }
        } else {
            Vec3 { x: self.x, y: self.y, z: value }
        }
    }

    /// The opposite vector: every component with its sign flipped.
    #[verifier::when_used_as_spec(spec_neg)]
    pub fn neg(self) -> (v: Vec3)
        ensures
            v == self.spec_neg(),
            v.spec_neg() == self,
    {
        Vec3 { x: self.x.neg(), y: self.y.neg(), z: self.z.neg() }
    }

    /// The componentwise lesser of two vectors.
    #[verifier::when_used_as_spec(spec_min)]
    pub fn min(self, other: Vec3) -> (v: Vec3)
        ensures
            v == self.spec_min(other),
    {
        Vec3 { x: self.x.min(other.x), y: self.y.min(other.y), z: self.z.min(other.z) }
    }

    /// The componentwise greater of two vectors.
    #[verifier::when_used_as_spec(spec_max)]
    pub fn max(self, other: Vec3) -> (v: Vec3)
        ensures
            v == self.spec_max(other),
    {
        Vec3 { x: self.x.max(other.x), y: self.y.max(other.y), z: self.z.max(other.z) }
    }
}

} // verus!
