//! Three scalars, used as a point, a direction or an RGB colour.

use vstd::prelude::*;
use crate::scalar::{
    Scalar, key_is_nan, key_le, key_lt, key_max, key_min, magnitude_key, negated_key,
    NEAR_ZERO_KEY, ONE_KEY,
};

verus! {

/// A triple of scalars.
#[derive(Clone, Copy, Debug, PartialEq, Eq, Structural)]
pub struct Vec3 {
    pub x: Scalar,
    pub y: Scalar,
    pub z: Scalar,
}

/// A colour is a vector whose components are red, green and blue.
pub type Color = Vec3;

impl Default for Vec3 {
    /// The vector of three positive zeros.
    fn default() -> (v: Vec3)
        ensures
            v == Vec3::origin(),
    {
        Vec3 { x: Scalar::zero(), y: Scalar::zero(), z: Scalar::zero() }
    }
}

impl Vec3 {
    /// The vector of three positive zeros: the origin, and the colour black.
    pub open spec fn origin() -> Vec3 {
        Vec3 { x: Scalar { key: 0 }, y: Scalar { key: 0 }, z: Scalar { key: 0 } }
    }

    /// The component on an axis: 0 for x, 1 for y, anything else for z.
    pub open spec fn on_axis(self, axis: int) -> Scalar {
        if axis == 0 {
            self.x
        } else if axis == 1 {
            self.y
        } else {
            self.z
        }
    }

    /// The component on an axis given as a machine index.
    pub open spec fn along(self, axis: usize) -> Scalar {
        self.on_axis(axis as int)
    }

    /// No component is a NaN.
    pub open spec fn is_numeric(self) -> bool {
        !key_is_nan(self.x@) && !key_is_nan(self.y@) && !key_is_nan(self.z@)
    }

    /// Every component is a number from zero to one, the ends included.
    pub open spec fn in_unit_cube(self) -> bool {
        &&& key_le(0, self.x@) && key_le(self.x@, ONE_KEY as int)
        &&& key_le(0, self.y@) && key_le(self.y@, ONE_KEY as int)
        &&& key_le(0, self.z@) && key_le(self.z@, ONE_KEY as int)
    }

    /// The colour white: three ones.
    pub open spec fn white() -> Vec3 {
        Vec3 { x: Scalar { key: ONE_KEY }, y: Scalar { key: ONE_KEY }, z: Scalar { key: ONE_KEY } }
    }

    /// Componentwise smaller of two vectors.
    pub open spec fn lower(self, other: Vec3) -> Vec3 {
        Vec3 {
            x: Scalar { key: key_min(self.x@, other.x@) as i64 },
            y: Scalar { key: key_min(self.y@, other.y@) as i64 },
            z: Scalar { key: key_min(self.z@, other.z@) as i64 },
        }
    }

    /// Componentwise larger of two vectors.
    pub open spec fn upper(self, other: Vec3) -> Vec3 {
        Vec3 {
            x: Scalar { key: key_max(self.x@, other.x@) as i64 },
            y: Scalar { key: key_max(self.y@, other.y@) as i64 },
            z: Scalar { key: key_max(self.z@, other.z@) as i64 },
        }
    }

    /// The vector with every sign flipped.
    pub open spec fn negated(self) -> Vec3 {
        Vec3 {
            x: Scalar { key: negated_key(self.x@) as i64 },
            y: Scalar { key: negated_key(self.y@) as i64 },
            z: Scalar { key: negated_key(self.z@) as i64 },
        }
    }

    /// Every component is closer to zero than ten to the minus eight.
    pub open spec fn vanishes(self) -> bool {
        &&& key_lt(magnitude_key(self.x@), NEAR_ZERO_KEY as int)
        &&& key_lt(magnitude_key(self.y@), NEAR_ZERO_KEY as int)
        &&& key_lt(magnitude_key(self.z@), NEAR_ZERO_KEY as int)
    }

    /// The vector with the given components.
    pub fn new(x: Scalar, y: Scalar, z: Scalar) -> (v: Vec3)
        ensures
            v.x == x,
            v.y == y,
            v.z == z,
    {
        Vec3 { x, y, z }
    }

    /// The first component.
    pub fn x(&self) -> (s: Scalar)
        ensures
            s == self.x,
    {
        self.x
    }

    /// The second component.
    pub fn y(&self) -> (s: Scalar)
        ensures
            s == self.y,
    {
        self.y
    }

    /// The third component.
    pub fn z(&self) -> (s: Scalar)
        ensures
            s == self.z,
    {
        self.z
    }

    /// The component on one of the three axes.
    pub fn axis(&self, axis: usize) -> (s: Scalar)
        requires
            axis < 3,
        ensures
            s == self.on_axis(axis as int),
    {
        if axis == 0 {
            self.x
        } else if axis == 1 {
            self.y
        } else {
            self.z
        }
    }

    /// Componentwise smaller of two vectors.
    pub fn min(&self, other: &Vec3) -> (v: Vec3)
        ensures
            v == self.lower(*other),
    {
        Vec3 { x: self.x.min(&other.x), y: self.y.min(&other.y), z: self.z.min(&other.z) }
    }

    /// Componentwise larger of two vectors.
    pub fn max(&self, other: &Vec3) -> (v: Vec3)
        ensures
            v == self.upper(*other),
    {
        Vec3 { x: self.x.max(&other.x), y: self.y.max(&other.y), z: self.z.max(&other.z) }
    }

    /// The opposite vector.
    pub fn neg(&self) -> (v: Vec3)
        ensures
            v == self.negated(),
    {
        Vec3 { x: self.x.neg(), y: self.y.neg(), z: self.z.neg() }
    }

    /// Whether the vector is too short to serve as a direction: every
    /// component has a magnitude below ten to the minus eight.
    pub fn near_zero(&self) -> (b: bool)
        ensures
            b == self.vanishes(),
    {
        let bound = Scalar { key: NEAR_ZERO_KEY };
        self.x.abs().lt(&bound) && self.y.abs().lt(&bound) && self.z.abs().lt(&bound)
    }
}

} // verus!
