//! The decisions that the shapes make on their crossings.
//!
//! Where a ray meets a sphere, a rectangle or a triangle is a matter of
//! arithmetic; which of the candidates counts, and whether any does, is a
//! matter of comparisons, and those are settled here.

use vstd::prelude::*;
use crate::aabb::Aabb;
use crate::geometry::{RectangleXY, RectangleXZ, RectangleYZ};
use crate::scalar::{Scalar, key_eq, key_is_nan, key_le, key_lt, INFINITY_KEY, ONE_KEY};
use crate::vec3::Vec3;

verus! {

/// Order key of the double nearest to one ten-thousandth: a triangle is
/// seen only where the determinant of the ray against it is at least this.
pub const FACING_THRESHOLD_KEY: i64 = 0x3F1A_36E2_EB1C_432D;

/// Whether a range admits a parameter: the parameter is neither below the
/// lower end nor above the upper end.
pub open spec fn admits(t: Scalar, t_min: Scalar, t_max: Scalar) -> bool {
    !key_lt(t@, t_min@) && !key_lt(t_max@, t@)
}

/// Whether a range encloses a parameter: the parameter is at least the
/// lower end and at most the upper end, which no NaN is.
pub open spec fn encloses(t: Scalar, t_min: Scalar, t_max: Scalar) -> bool {
    key_le(t_min@, t@) && key_le(t@, t_max@)
}

/// A parameter cut off at an upper end.
pub open spec fn cut_off(found: Option<Scalar>, t_max: Scalar) -> Option<Scalar> {
    match found {
        Some(t) => if key_le(t@, t_max@) {
            Some(t)
        } else {
            None
        },
        None => None,
    }
}

/// Whether a range admits a parameter.
pub fn in_range(t: Scalar, t_min: Scalar, t_max: Scalar) -> (inside: bool)
    ensures
        inside == admits(t, t_min, t_max),
{
    !(t.lt(&t_min) || t_max.lt(&t))
}

/// Whether a range encloses a parameter.
pub fn enclosed(t: Scalar, t_min: Scalar, t_max: Scalar) -> (inside: bool)
    ensures
        inside == encloses(t, t_min, t_max),
{
    t_min.le(&t) && t.le(&t_max)
}

/// A sphere.
pub struct Sphere<M> {
    pub center: Vec3,
    pub radius: Scalar,
    pub material: M,
}

impl<M> Sphere<M> {
    /// Which root of the quadratic counts: none where the discriminant is
    /// negative; else the nearer root where the range admits it; else the
    /// farther root where the range admits that; else none.
    pub open spec fn root_of(
        discriminant: Scalar,
        near: Scalar,
        far: Scalar,
        t_min: Scalar,
        t_max: Scalar,
    ) -> Option<Scalar> {
        if key_lt(discriminant@, 0) {
            None
        } else if admits(near, t_min, t_max) {
            Some(near)
        } else if admits(far, t_min, t_max) {
            Some(far)
        } else {
            None
        }
    }

    /// The sphere round `center`.
    pub fn new(center: Vec3, radius: Scalar, material: M) -> (sphere: Sphere<M>)
        ensures
            sphere.center == center,
            sphere.radius == radius,
            sphere.material == material,
    {
        Sphere { center, radius, material }
    }

    /// Chooses among the roots of the quadratic that a ray and the sphere
    /// give: `near` is the root with the square root of the discriminant
    /// subtracted, `far` the one with it added.
    pub fn root(
        discriminant: Scalar,
        near: Scalar,
        far: Scalar,
        t_min: Scalar,
        t_max: Scalar,
    ) -> (found: Option<Scalar>)
        ensures
            found == Self::root_of(discriminant, near, far, t_min, t_max),
    {
        if discriminant.lt(&Scalar::zero()) {
            return None;
        }
        if in_range(near, t_min, t_max) {
            Some(near)
        } else if in_range(far, t_min, t_max) {
            Some(far)
        } else {
            None
        }
    }
}

/// A sphere answers every query with its first crossing, cut off at the
/// upper end: where the two roots are numbers in their order, the root
/// chosen within an upper end is the root chosen without one, if that is
/// within the end, and no root otherwise; and the root chosen is not below
/// the lower end.
pub proof fn sphere_reports_its_first_crossing<M>(
    discriminant: Scalar,
    near: Scalar,
    far: Scalar,
    t_min: Scalar,
    t_max: Scalar,
)
    requires
        !key_is_nan(near@),
        !key_is_nan(far@),
        key_le(near@, far@),
        !key_is_nan(t_min@),
        !key_is_nan(t_max@),
    ensures
        Sphere::<M>::root_of(discriminant, near, far, t_min, t_max) == cut_off(
            Sphere::<M>::root_of(discriminant, near, far, t_min, Scalar { key: INFINITY_KEY }),
            t_max,
        ),
        Sphere::<M>::root_of(discriminant, near, far, t_min, t_max) matches Some(t) ==> key_le(
            t_min@,
            t@,
        ) && key_le(t@, t_max@),
{
}

/// A shape with one crossing answers every query with that crossing, cut
/// off at the upper end: a range admits a number exactly if the range
/// without an upper end admits it and it is within the end.
pub proof fn one_crossing_is_the_first(t: Scalar, t_min: Scalar, t_max: Scalar)
    requires
        !key_is_nan(t@),
        !key_is_nan(t_max@),
    ensures
        admits(t, t_min, t_max) == (admits(t, t_min, Scalar { key: INFINITY_KEY }) && key_le(
            t@,
            t_max@,
        )),
        encloses(t, t_min, t_max) == (encloses(t, t_min, Scalar { key: INFINITY_KEY })
            && key_le(t@, t_max@)),
{
}

impl<M> RectangleXY<M> {
    /// Whether a point of the rectangle's plane lies on the rectangle:
    /// neither coordinate is below the start or above the end.
    pub open spec fn holds(self, x: Scalar, y: Scalar) -> bool {
        !(key_lt(x@, self.start.x@) || key_lt(self.end.x@, x@) || key_lt(y@, self.start.y@)
            || key_lt(self.end.y@, y@))
    }

    /// Whether the point with the given x and y lies on the rectangle.
    pub fn covers(&self, x: Scalar, y: Scalar) -> (inside: bool)
        ensures
            inside == self.holds(x, y),
    {
        !(x.lt(&self.start.x) || self.end.x.lt(&x) || y.lt(&self.start.y) || self.end.y.lt(&y))
    }
}

impl<M> RectangleXZ<M> {
    /// Whether a point of the rectangle's plane lies on the rectangle:
    /// neither coordinate is below the start or above the end.
    pub open spec fn holds(self, x: Scalar, z: Scalar) -> bool {
        !(key_lt(x@, self.start.x@) || key_lt(self.end.x@, x@) || key_lt(z@, self.start.z@)
            || key_lt(self.end.z@, z@))
    }

    /// Whether the point with the given x and z lies on the rectangle.
    pub fn covers(&self, x: Scalar, z: Scalar) -> (inside: bool)
        ensures
            inside == self.holds(x, z),
    {
        !(x.lt(&self.start.x) || self.end.x.lt(&x) || z.lt(&self.start.z) || self.end.z.lt(&z))
    }
}

impl<M> RectangleYZ<M> {
    /// Whether a point of the rectangle's plane lies on the rectangle:
    /// neither coordinate is below the start or above the end.
    pub open spec fn holds(self, y: Scalar, z: Scalar) -> bool {
        !(key_lt(y@, self.start.y@) || key_lt(self.end.y@, y@) || key_lt(z@, self.start.z@)
            || key_lt(self.end.z@, z@))
    }

    /// Whether the point with the given y and z lies on the rectangle.
    pub fn covers(&self, y: Scalar, z: Scalar) -> (inside: bool)
        ensures
            inside == self.holds(y, z),
    {
        !(y.lt(&self.start.y) || self.end.y.lt(&y) || z.lt(&self.start.z) || self.end.z.lt(&z))
    }
}

/// A triangle, seen from one side only.
pub struct Triangle<M> {
    pub point1: Vec3,
    pub point2: Vec3,
    pub point3: Vec3,
    pub normal: Vec3,
    pub material: M,
}

/// The axes along which a box has no extent.
#[derive(Clone, Copy, Debug, PartialEq, Eq, Structural)]
pub struct Flatness {
    pub x: bool,
    pub y: bool,
    pub z: bool,
}

impl<M> Triangle<M> {
    /// Whether a ray hits the triangle, by the numbers of the test of
    /// Moeller and Trumbore: the determinant is at least one
    /// ten-thousandth, so that the ray meets the front; the first
    /// barycentric coordinate lies between zero and one; the second is not
    /// negative and the sum of the two not above one; and the range
    /// encloses the parameter.
    pub open spec fn accepts(
        determinant: Scalar,
        u: Scalar,
        v: Scalar,
        sum: Scalar,
        t: Scalar,
        t_min: Scalar,
        t_max: Scalar,
    ) -> bool {
        &&& !key_lt(determinant@, FACING_THRESHOLD_KEY as int)
        &&& encloses(u, Scalar { key: 0 }, Scalar { key: ONE_KEY })
        &&& !(key_lt(v@, 0) || key_lt(ONE_KEY as int, sum@))
        &&& encloses(t, t_min, t_max)
    }

    /// The box from the componentwise smallest to the componentwise largest
    /// of the three corners.
    pub open spec fn corner_box(self) -> Aabb {
        Aabb {
            minimum: self.point1.lower(self.point2).lower(self.point3),
            maximum: self.point1.upper(self.point2).upper(self.point3),
        }
    }

    /// The triangle with the given corners and normal.
    pub fn new(point1: Vec3, point2: Vec3, point3: Vec3, normal: Vec3, material: M) -> (triangle:
        Triangle<M>)
        ensures
            triangle.point1 == point1,
            triangle.point2 == point2,
            triangle.point3 == point3,
            triangle.normal == normal,
            triangle.material == material,
    {
        Triangle { point1, point2, point3, normal, material }
    }

    /// Decides whether a ray hits the triangle. `sum` is the sum of the
    /// barycentric coordinates `u` and `v`.
    pub fn accept(
        determinant: Scalar,
        u: Scalar,
        v: Scalar,
        sum: Scalar,
        t: Scalar,
        t_min: Scalar,
        t_max: Scalar,
    ) -> (hit: bool)
        ensures
            hit == Self::accepts(determinant, u, v, sum, t, t_min, t_max),
    {
        if determinant.lt(&Scalar { key: FACING_THRESHOLD_KEY }) {
            return false;
        }
        if !enclosed(u, Scalar::zero(), Scalar::one()) {
            return false;
        }
        if v.lt(&Scalar::zero()) || Scalar::one().lt(&sum) {
            return false;
        }
        enclosed(t, t_min, t_max)
    }

    /// The box round the three corners, without padding.
    pub fn span(&self) -> (bbox: Aabb)
        ensures
            bbox == self.corner_box(),
    {
        Aabb::new(
            self.point1.min(&self.point2).min(&self.point3),
            self.point1.max(&self.point2).max(&self.point3),
        )
    }
}

impl Aabb {
    /// The axes on which the two corners have equal coordinates.
    pub open spec fn flat_axes(self) -> Flatness {
        Flatness {
            x: key_eq(self.minimum.x@, self.maximum.x@),
            y: key_eq(self.minimum.y@, self.maximum.y@),
            z: key_eq(self.minimum.z@, self.maximum.z@),
        }
    }

    /// Finds the axes along which the box has no extent and needs padding
    /// before a ray can cross it.
    pub fn flatness(&self) -> (flat: Flatness)
        ensures
            flat == self.flat_axes(),
    {
        Flatness {
            x: self.minimum.x.same(&self.maximum.x),
            y: self.minimum.y.same(&self.maximum.y),
            z: self.minimum.z.same(&self.maximum.z),
        }
    }
}

} // verus!
