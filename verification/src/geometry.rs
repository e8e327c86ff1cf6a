//! What a ray can hit.

use vstd::prelude::*;
use crate::aabb::{Aabb, Slabs};
use crate::ray::Ray;
use crate::scalar::{Scalar, key_eq, key_is_nan, key_lt, NEG_ONE_KEY, ONE_KEY};
use crate::vec3::Vec3;

verus! {

/// Where and how a ray met a surface.
pub struct HitRecord<'a, M> {
    /// The ray's parameter at the crossing.
    pub t: Scalar,
    /// The crossing itself.
    pub point: Vec3,
    /// The surface normal, turned against the incoming ray.
    pub normal: Vec3,
    /// First surface coordinate for texture lookup.
    pub u: Scalar,
    /// Second surface coordinate for texture lookup.
    pub v: Scalar,
    /// Whether the geometric normal already faced the ray.
    pub front_face: bool,
    /// The material at the crossing.
    pub material: &'a M,
}

impl<'a, M> HitRecord<'a, M> {
    /// Records a crossing. `facing` is the dot product of the ray's direction
    /// with `outward_normal`: where it is negative the ray meets the front of
    /// the surface and the normal is kept, otherwise the normal is turned
    /// round.
    pub fn new(
        t: Scalar,
        point: Vec3,
        facing: Scalar,
        outward_normal: Vec3,
        u: Scalar,
        v: Scalar,
        material: &'a M,
    ) -> (record: HitRecord<'a, M>)
        ensures
            record.t == t,
            record.point == point,
            record.u == u,
            record.v == v,
            record.material == material,
            record.front_face == key_lt(facing@, 0),
            record.normal == if key_lt(facing@, 0) {
                outward_normal
            } else {
                outward_normal.negated()
            },
    {
        let front_face = facing.lt(&Scalar::zero());
        HitRecord {
            t,
            point,
            normal: if front_face {
                outward_normal
            } else {
                outward_normal.neg()
            },
            u,
            v,
            front_face,
            material,
        }
    }
}

/// The upper end of the range for whatever is tested after `found`: the
/// parameter of the record, or `t_max` where nothing was found.
pub open spec fn narrowed_bound<M>(found: Option<HitRecord<'_, M>>, t_max: Scalar) -> Scalar {
    match found {
        Some(record) => record.t,
        None => t_max,
    }
}

/// Of two results, the second where it holds a record, else the first.
pub open spec fn later_hit<'a, M>(
    first: Option<HitRecord<'a, M>>,
    second: Option<HitRecord<'a, M>>,
) -> Option<HitRecord<'a, M>> {
    match second {
        Some(record) => Some(record),
        None => first,
    }
}

/// A shape, or a collection of shapes: something a ray can be tested
/// against.
///
/// An implementation fixes three functions of its arguments: the crossing
/// that a query reports, the box around the shape, and the arithmetic by
/// which a ray is measured against any box. The executable methods return
/// what those functions say.
pub trait Hittable {
    /// What the surfaces are made of.
    type Material;

    /// The crossing that a query over the range from `t_min` to `t_max`
    /// reports.
    spec fn hit_spec(&self, ray: Ray, t_min: Scalar, t_max: Scalar) -> Option<
        HitRecord<'_, Self::Material>,
    >;

    /// Whether the shape has a bounding box at all.
    spec fn is_bounded(&self) -> bool;

    /// The box around the shape.
    spec fn bounds(&self) -> Aabb;

    /// The crossings of a ray with the six planes of a box.
    spec fn slabs_spec(bbox: Aabb, ray: Ray) -> Slabs;

    /// Tests the ray against the shape over the parameters from `t_min` to
    /// `t_max`.
    fn hit<'a>(&'a self, ray: &Ray, t_min: Scalar, t_max: Scalar) -> (found: Option<
        HitRecord<'a, Self::Material>,
    >)
        ensures
            found == self.hit_spec(*ray, t_min, t_max),
    ;

    /// The box around the shape.
    fn bounding_box(&self) -> (bbox: Aabb)
        requires
            self.is_bounded(),
        ensures
            bbox == self.bounds(),
    ;

    /// Measures a ray against the three slabs of a box.
    fn slabs(bbox: &Aabb, ray: &Ray) -> (slabs: Slabs)
        ensures
            slabs == Self::slabs_spec(*bbox, *ray),
    ;
}

/// The closest-so-far sweep over a sequence of shapes: each shape is tested
/// up to the closest crossing found before it, and a shape that reports a
/// crossing replaces what was found.
pub open spec fn sweep<'a, H: Hittable>(
    shapes: Seq<H>,
    ray: Ray,
    t_min: Scalar,
    t_max: Scalar,
) -> Option<HitRecord<'a, H::Material>>
    decreases shapes.len(),
{
    if shapes.len() == 0 {
        None
    } else {
        let before = sweep(shapes.drop_last(), ray, t_min, t_max);
        later_hit(before, shapes.last().hit_spec(ray, t_min, narrowed_bound(before, t_max)))
    }
}

/// The box around a non-empty sequence of shapes: the boxes of the shapes,
/// merged from the first to the last.
pub open spec fn hull<H: Hittable>(shapes: Seq<H>) -> Aabb
    decreases shapes.len(),
{
    if shapes.len() <= 1 {
        shapes[0].bounds()
    } else {
        hull(shapes.drop_last()).merged(shapes.last().bounds())
    }
}

impl<H: Hittable> Hittable for Vec<H> {
    type Material = H::Material;

    open spec fn hit_spec(&self, ray: Ray, t_min: Scalar, t_max: Scalar) -> Option<
        HitRecord<'_, Self::Material>,
    > {
        sweep(self@, ray, t_min, t_max)
    }

    open spec fn is_bounded(&self) -> bool {
        self@.len() > 0 && forall|i: int| 0 <= i < self@.len() ==> (#[trigger] self@[i]).is_bounded()
    }

    open spec fn bounds(&self) -> Aabb {
        hull(self@)
    }

    open spec fn slabs_spec(bbox: Aabb, ray: Ray) -> Slabs {
        H::slabs_spec(bbox, ray)
    }

    /// The closest crossing among the members: a linear scan that shrinks the
    /// range to every crossing it finds.
    fn hit<'a>(&'a self, ray: &Ray, t_min: Scalar, t_max: Scalar) -> (found: Option<
        HitRecord<'a, Self::Material>,
    >) {
        let mut closest_so_far = t_max;
        let mut result: Option<HitRecord<'a, H::Material>> = None;
        let mut i: usize = 0;
        while i < self.len()
            invariant
                i <= self@.len(),
                result == sweep(self@.take(i as int), *ray, t_min, t_max),
                closest_so_far == narrowed_bound(result, t_max),
            decreases self@.len() - i,
        {
            proof {
                assert(self@.take(i + 1).drop_last() == self@.take(i as int));
            }
            match self[i].hit(ray, t_min, closest_so_far) {
                Some(record) => {
                    closest_so_far = record.t;
                    result = Some(record);
                },
                None => {},
            }
            i = i + 1;
        }
        proof {
            assert(self@.take(i as int) == self@);
        }
        result
    }

    /// The box around all members.
    fn bounding_box(&self) -> (bbox: Aabb) {
        let mut output = self[0].bounding_box();
        let mut i: usize = 1;
        proof {
            assert(self@.take(1).len() == 1);
            assert(self@.take(1)[0] == self@[0]);
        }
        while i < self.len()
            invariant
                1 <= i <= self@.len(),
                self.is_bounded(),
                output == hull(self@.take(i as int)),
            decreases self@.len() - i,
        {
            proof {
                assert(self@.take(i + 1).drop_last() == self@.take(i as int));
            }
            let next = self[i].bounding_box();
            output = output.surrounding_box(&next);
            i = i + 1;
        }
        proof {
            assert(self@.take(i as int) == self@);
        }
        output
    }

    fn slabs(bbox: &Aabb, ray: &Ray) -> (slabs: Slabs) {
        H::slabs(bbox, ray)
    }
}

/// The corners given for a rectangle do not lie in one plane of the required
/// orientation.
#[derive(Debug)]
pub struct RectangleNotAxisAlignedError;

impl RectangleNotAxisAlignedError {
    /// What went wrong, in words.
    pub fn message(&self) -> (text: &'static str)
        ensures
            text@ == "rectangle axis is not aligned"@,
    {
        "rectangle axis is not aligned"
    }
}

/// Whether a scalar is exactly one or exactly minus one.
pub open spec fn is_orientation(direction: Scalar) -> bool {
    direction@ == ONE_KEY || direction@ == NEG_ONE_KEY
}

/// A rectangle in a plane of constant z, spanned by two corners. `direction`
/// is the z component of its normal.
pub struct RectangleXY<M> {
    pub start: Vec3,
    pub end: Vec3,
    pub direction: Scalar,
    pub material: M,
}

/// A rectangle in a plane of constant y. `direction` is the y component of
/// its normal.
pub struct RectangleXZ<M> {
    pub start: Vec3,
    pub end: Vec3,
    pub direction: Scalar,
    pub material: M,
}

/// A rectangle in a plane of constant x. `direction` is the x component of
/// its normal.
pub struct RectangleYZ<M> {
    pub start: Vec3,
    pub end: Vec3,
    pub direction: Scalar,
    pub material: M,
}

impl<M> RectangleXY<M> {
    /// The rectangle between two corners that share their z coordinate.
    ///
    /// The corners are rejected unless their z coordinates are equal numbers.
    /// The rectangle's own corners are the componentwise smaller and larger
    /// of the two in x and y, both at the z of `start`.
    pub fn new(start: Vec3, end: Vec3, direction: Scalar, material: M) -> (made: Result<
        RectangleXY<M>,
        RectangleNotAxisAlignedError,
    >)
        requires
            is_orientation(direction),
        ensures
            made is Ok <==> key_eq(start.z@, end.z@),
            made matches Ok(rectangle) ==> {
                &&& rectangle.start == (Vec3 { z: start.z, ..start.lower(end) })
                &&& rectangle.end == (Vec3 { z: start.z, ..start.upper(end) })
                &&& rectangle.direction == direction
                &&& rectangle.material == material
            },
    {
        if !start.z.same(&end.z) {
            return Err(RectangleNotAxisAlignedError);
        }
        Ok(
            RectangleXY {
                start: Vec3::new(start.x.min(&end.x), start.y.min(&end.y), start.z),
                end: Vec3::new(start.x.max(&end.x), start.y.max(&end.y), start.z),
                direction,
                material,
            },
        )
    }
}

impl<M> RectangleXZ<M> {
    /// The rectangle between two corners that share their y coordinate.
    ///
    /// The corners are rejected unless their y coordinates are equal numbers.
    /// The rectangle's own corners are the componentwise smaller and larger
    /// of the two in x and z, both at the y of `start`.
    pub fn new(start: Vec3, end: Vec3, direction: Scalar, material: M) -> (made: Result<
        RectangleXZ<M>,
        RectangleNotAxisAlignedError,
    >)
        requires
            is_orientation(direction),
        ensures
            made is Ok <==> key_eq(start.y@, end.y@),
            made matches Ok(rectangle) ==> {
                &&& rectangle.start == (Vec3 { y: start.y, ..start.lower(end) })
                &&& rectangle.end == (Vec3 { y: start.y, ..start.upper(end) })
                &&& rectangle.direction == direction
                &&& rectangle.material == material
            },
    {
        if !start.y.same(&end.y) {
            return Err(RectangleNotAxisAlignedError);
        }
        Ok(
            RectangleXZ {
                start: Vec3::new(start.x.min(&end.x), start.y, start.z.min(&end.z)),
                end: Vec3::new(start.x.max(&end.x), start.y, start.z.max(&end.z)),
                direction,
                material,
            },
        )
    }
}

impl<M> RectangleYZ<M> {
    /// The rectangle between two corners that share their x coordinate.
    ///
    /// The corners are rejected unless their x coordinates are equal numbers.
    /// The rectangle's own corners are the componentwise smaller and larger
    /// of the two in y and z, both at the x of `start`.
    pub fn new(start: Vec3, end: Vec3, direction: Scalar, material: M) -> (made: Result<
        RectangleYZ<M>,
        RectangleNotAxisAlignedError,
    >)
        requires
            is_orientation(direction),
        ensures
            made is Ok <==> key_eq(start.x@, end.x@),
            made matches Ok(rectangle) ==> {
                &&& rectangle.start == (Vec3 { x: start.x, ..start.lower(end) })
                &&& rectangle.end == (Vec3 { x: start.x, ..start.upper(end) })
                &&& rectangle.direction == direction
                &&& rectangle.material == material
            },
    {
        if !start.x.same(&end.x) {
            return Err(RectangleNotAxisAlignedError);
        }
        Ok(
            RectangleYZ {
                start: Vec3::new(start.x, start.y.min(&end.y), start.z.min(&end.z)),
                end: Vec3::new(start.x, start.y.max(&end.y), start.z.max(&end.z)),
                direction,
                material,
            },
        )
    }
}

/// The six faces of an axis-aligned box: for each orientation the face at
/// the box's minimum, whose normal points down the axis, and the face at its
/// maximum, whose normal points up the axis.
pub struct BoxSides<M> {
    pub back: RectangleXY<M>,
    pub front: RectangleXY<M>,
    pub bottom: RectangleXZ<M>,
    pub top: RectangleXZ<M>,
    pub left: RectangleYZ<M>,
    pub right: RectangleYZ<M>,
}

/// An axis-aligned box made of six rectangles.
pub struct AABox<M> {
    pub minimum: Vec3,
    pub maximum: Vec3,
    pub sides: BoxSides<M>,
}

/// On no axis are both coordinates NaNs.
pub open spec fn spans_numbers(start: Vec3, end: Vec3) -> bool {
    &&& !(key_is_nan(start.x@) && key_is_nan(end.x@))
    &&& !(key_is_nan(start.y@) && key_is_nan(end.y@))
    &&& !(key_is_nan(start.z@) && key_is_nan(end.z@))
}

impl<M: Copy> AABox<M> {
    /// The face of the box in the plane `z == at`.
    pub open spec fn face_xy(self, at: Scalar, direction: int) -> RectangleXY<M> {
        RectangleXY {
            start: Vec3 { z: at, ..self.minimum },
            end: Vec3 { x: self.maximum.x, y: self.maximum.y, z: at },
            direction: Scalar { key: direction as i64 },
            material: self.sides.back.material,
        }
    }

    /// The face of the box in the plane `y == at`.
    pub open spec fn face_xz(self, at: Scalar, direction: int) -> RectangleXZ<M> {
        RectangleXZ {
            start: Vec3 { y: at, ..self.minimum },
            end: Vec3 { x: self.maximum.x, y: at, z: self.maximum.z },
            direction: Scalar { key: direction as i64 },
            material: self.sides.back.material,
        }
    }

    /// The face of the box in the plane `x == at`.
    pub open spec fn face_yz(self, at: Scalar, direction: int) -> RectangleYZ<M> {
        RectangleYZ {
            start: Vec3 { x: at, ..self.minimum },
            end: Vec3 { x: at, y: self.maximum.y, z: self.maximum.z },
            direction: Scalar { key: direction as i64 },
            material: self.sides.back.material,
        }
    }

    /// The six faces are those of the box between `minimum` and `maximum`,
    /// each with its normal pointing out of the box, all of one material.
    pub open spec fn is_closed(self) -> bool {
        &&& self.sides.back == self.face_xy(self.minimum.z, NEG_ONE_KEY as int)
        &&& self.sides.front == self.face_xy(self.maximum.z, ONE_KEY as int)
        &&& self.sides.bottom == self.face_xz(self.minimum.y, NEG_ONE_KEY as int)
        &&& self.sides.top == self.face_xz(self.maximum.y, ONE_KEY as int)
        &&& self.sides.left == self.face_yz(self.minimum.x, NEG_ONE_KEY as int)
        &&& self.sides.right == self.face_yz(self.maximum.x, ONE_KEY as int)
    }

    /// The box between two opposite corners, given in any order. On every
    /// axis at least one of the two coordinates has to be a number.
    pub fn new(start: Vec3, end: Vec3, material: M) -> (made: AABox<M>)
        requires
            spans_numbers(start, end),
        ensures
            made.minimum == start.lower(end),
            made.maximum == start.upper(end),
            made.minimum.is_numeric(),
            made.maximum.is_numeric(),
            made.sides.back.material == material,
            made.is_closed(),
    {
        let minimum = start.min(&end);
        let maximum = start.max(&end);
        let back = RectangleXY::new(
            Vec3::new(minimum.x, minimum.y, minimum.z),
            Vec3::new(maximum.x, maximum.y, minimum.z),
            Scalar::neg_one(),
            material,
        );
        let front = RectangleXY::new(
            Vec3::new(minimum.x, minimum.y, maximum.z),
            Vec3::new(maximum.x, maximum.y, maximum.z),
            Scalar::one(),
            material,
        );
        let bottom = RectangleXZ::new(
            Vec3::new(minimum.x, minimum.y, minimum.z),
            Vec3::new(maximum.x, minimum.y, maximum.z),
            Scalar::neg_one(),
            material,
        );
        let top = RectangleXZ::new(
            Vec3::new(minimum.x, maximum.y, minimum.z),
            Vec3::new(maximum.x, maximum.y, maximum.z),
            Scalar::one(),
            material,
        );
        let left = RectangleYZ::new(
            Vec3::new(minimum.x, minimum.y, minimum.z),
            Vec3::new(minimum.x, maximum.y, maximum.z),
            Scalar::neg_one(),
            material,
        );
        let right = RectangleYZ::new(
            Vec3::new(maximum.x, minimum.y, minimum.z),
            Vec3::new(maximum.x, maximum.y, maximum.z),
            Scalar::one(),
            material,
        );
        AABox {
            minimum,
            maximum,
            sides: BoxSides {
                back: back.unwrap(),
                front: front.unwrap(),
                bottom: bottom.unwrap(),
                top: top.unwrap(),
                left: left.unwrap(),
                right: right.unwrap(),
            },
        }
    }

    /// The box itself, without padding.
    pub fn bounding_box(&self) -> (bbox: Aabb)
        ensures
            bbox.minimum == self.minimum,
            bbox.maximum == self.maximum,
    {
        Aabb::new(self.minimum, self.maximum)
    }
}

} // verus!
