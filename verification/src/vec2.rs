//! Two scalars: a point or a direction in the plane.

use vstd::prelude::*;
use crate::scalar::Scalar;

verus! {

/// A pair of scalars.
#[derive(Clone, Copy, Debug, PartialEq, Eq, Structural)]
pub struct Vec2 {
    pub x: Scalar,
    pub y: Scalar,
}

impl Default for Vec2 {
    /// The vector of two positive zeros.
    fn default() -> (v: Vec2)
        ensures
            v.x@ == 0,
            v.y@ == 0,
    {
        Vec2 { x: Scalar::zero(), y: Scalar::zero() }
    }
}

impl Vec2 {
    /// The vector with the given components.
    pub fn new(x: Scalar, y: Scalar) -> (v: Vec2)
        ensures
            v.x == x,
            v.y == y,
    {
        Vec2 { x, y }
    }

    /// The first component.
    pub fn x(&self) -> (s: Scalar)
        ensures
            s == self.x,
    {
        self.x
    }

    /// The second component.
    pub fn y(&self) -> (s: Scalar)
        ensures
            s == self.y,
    {
        self.y
    }
}

} // verus!
