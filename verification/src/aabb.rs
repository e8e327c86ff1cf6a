//! Axis-aligned bounding boxes and the slab test.

use vstd::prelude::*;
use crate::geometry::Hittable;
use crate::ray::Ray;
use crate::scalar::{Scalar, key_is_nan, key_le, key_lt, key_max, key_min, min_max_bracket};
use crate::vec3::Vec3;

verus! {

/// What a ray sees of one pair of parallel planes: the reciprocal of its
/// direction on that axis, and the parameters at which it meets the plane
/// through the box's minimum and the plane through its maximum.
#[derive(Clone, Copy, Debug, PartialEq, Eq, Structural)]
pub struct Slab {
    pub inverse: Scalar,
    pub at_minimum: Scalar,
    pub at_maximum: Scalar,
}

/// The three slabs of a box, as one ray meets them.
#[derive(Clone, Copy, Debug, PartialEq, Eq, Structural)]
pub struct Slabs {
    pub x: Slab,
    pub y: Slab,
    pub z: Slab,
}

/// A closed parameter range.
#[derive(Clone, Copy, Debug, PartialEq, Eq, Structural)]
pub struct Span {
    pub low: Scalar,
    pub high: Scalar,
}

impl Span {
    /// The range holds no parameter that a slab test accepts: its upper end
    /// is not above its lower end.
    pub open spec fn is_spent(self) -> bool {
        key_le(self.high@, self.low@)
    }
}

impl Slab {
    /// The parameter at which the ray enters the slab: the crossing of the
    /// minimum plane, or of the maximum plane where the ray runs backwards.
    pub open spec fn entry(self) -> int {
        if key_lt(self.inverse@, 0) {
            self.at_maximum@
        } else {
            self.at_minimum@
        }
    }

    /// The parameter at which the ray leaves the slab.
    pub open spec fn exit(self) -> int {
        if key_lt(self.inverse@, 0) {
            self.at_minimum@
        } else {
            self.at_maximum@
        }
    }

    /// The part of a range that lies inside the slab.
    pub open spec fn narrowed(self, span: Span) -> Span {
        Span {
            low: Scalar { key: key_max(self.entry(), span.low@) as i64 },
            high: Scalar { key: key_min(self.exit(), span.high@) as i64 },
        }
    }

    /// Clips a parameter range to the slab.
    pub fn narrow(&self, span: Span) -> (out: Span)
        ensures
            out == self.narrowed(span),
    {
        let backwards = self.inverse.lt(&Scalar::zero());
        let entry = if backwards { self.at_maximum } else { self.at_minimum };
        let exit = if backwards { self.at_minimum } else { self.at_maximum };
        Span { low: entry.max(&span.low), high: exit.min(&span.high) }
    }
}

impl Slabs {
    /// Whether some parameter of the range lies inside all three slabs: the
    /// range is clipped by one slab after the other, and the ray misses as
    /// soon as a clipped range is spent.
    pub open spec fn crossed(self, t_min: Scalar, t_max: Scalar) -> bool {
        let after_x = self.x.narrowed(Span { low: t_min, high: t_max });
        let after_y = self.y.narrowed(after_x);
        let after_z = self.z.narrowed(after_y);
        !after_x.is_spent() && !after_y.is_spent() && !after_z.is_spent()
    }

    /// The slab test on the three pairs of crossings.
    pub fn clip(&self, t_min: Scalar, t_max: Scalar) -> (hit: bool)
        ensures
            hit == self.crossed(t_min, t_max),
    {
        let after_x = self.x.narrow(Span { low: t_min, high: t_max });
        if after_x.high.le(&after_x.low) {
            return false;
        }
        let after_y = self.y.narrow(after_x);
        if after_y.high.le(&after_y.low) {
            return false;
        }
        let after_z = self.z.narrow(after_y);
        !after_z.high.le(&after_z.low)
    }
}

/// A ray is inside `outer` whenever it is inside `inner`: it enters `outer`
/// no later and leaves it no earlier, and all four crossings are numbers.
pub open spec fn slab_within(inner: Slab, outer: Slab) -> bool {
    &&& !key_is_nan(inner.entry()) && !key_is_nan(inner.exit())
    &&& !key_is_nan(outer.entry()) && !key_is_nan(outer.exit())
    &&& key_le(outer.entry(), inner.entry())
    &&& key_le(inner.exit(), outer.exit())
}

/// The slab test grows with the box: a ray that crosses three slabs within
/// a range crosses three wider slabs within the same range.
pub proof fn wider_slabs_are_crossed(inner: Slabs, outer: Slabs, t_min: Scalar, t_max: Scalar)
    requires
        slab_within(inner.x, outer.x),
        slab_within(inner.y, outer.y),
        slab_within(inner.z, outer.z),
        !key_is_nan(t_min@),
        !key_is_nan(t_max@),
        inner.crossed(t_min, t_max),
    ensures
        outer.crossed(t_min, t_max),
{
    let start = Span { low: t_min, high: t_max };
    let inner_x = inner.x.narrowed(start);
    let outer_x = outer.x.narrowed(start);
    narrowing_keeps_order(inner.x, outer.x, start, start);
    let inner_y = inner.y.narrowed(inner_x);
    let outer_y = outer.y.narrowed(outer_x);
    narrowing_keeps_order(inner.y, outer.y, inner_x, outer_x);
    narrowing_keeps_order(inner.z, outer.z, inner_y, outer_y);
}

/// A range of numbers lies in another: it starts no earlier and ends no
/// later.
pub open spec fn span_within(inner: Span, outer: Span) -> bool {
    &&& !key_is_nan(inner.low@) && !key_is_nan(inner.high@)
    &&& !key_is_nan(outer.low@) && !key_is_nan(outer.high@)
    &&& key_le(outer.low@, inner.low@)
    &&& key_le(inner.high@, outer.high@)
}

/// Clipping keeps ranges nested: the part of a range inside a slab lies in
/// the part of a wider range inside a wider slab, and is spent if that is.
proof fn narrowing_keeps_order(inner: Slab, outer: Slab, inner_span: Span, outer_span: Span)
    requires
        slab_within(inner, outer),
        span_within(inner_span, outer_span),
    ensures
        span_within(inner.narrowed(inner_span), outer.narrowed(outer_span)),
        outer.narrowed(outer_span).is_spent() ==> inner.narrowed(inner_span).is_spent(),
{
}

/// An axis-aligned box, given by its two extreme corners.
#[derive(Clone, Copy, Debug, PartialEq, Eq, Structural)]
pub struct Aabb {
    pub minimum: Vec3,
    pub maximum: Vec3,
}

impl Aabb {
    /// Both corners are numbers and the minimum is not above the maximum on
    /// any axis.
    pub open spec fn is_ordered(self) -> bool {
        &&& self.minimum.is_numeric()
        &&& self.maximum.is_numeric()
        &&& self.minimum.x@ <= self.maximum.x@
        &&& self.minimum.y@ <= self.maximum.y@
        &&& self.minimum.z@ <= self.maximum.z@
    }

    /// Every point of `inner` lies in this box.
    pub open spec fn contains(self, inner: Aabb) -> bool {
        &&& self.minimum.x@ <= inner.minimum.x@
        &&& self.minimum.y@ <= inner.minimum.y@
        &&& self.minimum.z@ <= inner.minimum.z@
        &&& inner.maximum.x@ <= self.maximum.x@
        &&& inner.maximum.y@ <= self.maximum.y@
        &&& inner.maximum.z@ <= self.maximum.z@
    }

    /// The smallest box around two boxes.
    pub open spec fn merged(self, other: Aabb) -> Aabb {
        Aabb {
            minimum: self.minimum.lower(other.minimum),
            maximum: self.maximum.upper(other.maximum),
        }
    }

    /// Whether a ray crosses the box within a parameter range, by the
    /// arithmetic of the shape type `H`.
    pub open spec fn crossed_by<H: Hittable>(self, ray: Ray, t_min: Scalar, t_max: Scalar) -> bool {
        H::slabs_spec(self, ray).crossed(t_min, t_max)
    }

    /// The box with the given corners.
    pub fn new(minimum: Vec3, maximum: Vec3) -> (b: Aabb)
        ensures
            b.minimum == minimum,
            b.maximum == maximum,
    {
        Aabb { minimum, maximum }
    }

    /// The slab test: whether the ray crosses the box at some parameter of
    /// the range. The crossings of the six planes come from the shape type
    /// `H`; which of them bound the range, and whether anything is left of
    /// it, is decided here.
    pub fn hit<H: Hittable>(&self, ray: &Ray, t_min: Scalar, t_max: Scalar) -> (hit: bool)
        ensures
            hit == self.crossed_by::<H>(*ray, t_min, t_max),
    {
        let slabs = H::slabs(self, ray);
        slabs.clip(t_min, t_max)
    }

    /// The smallest box around this box and another.
    pub fn surrounding_box(&self, other: &Aabb) -> (b: Aabb)
        ensures
            b == self.merged(*other),
    {
        Aabb { minimum: self.minimum.min(&other.minimum), maximum: self.maximum.max(&other.maximum) }
    }
}

/// The box around two ordered boxes is ordered and contains both.
pub proof fn merged_box_contains_both(a: Aabb, b: Aabb)
    requires
        a.is_ordered(),
        b.is_ordered(),
    ensures
        a.merged(b).is_ordered(),
        a.merged(b).contains(a),
        a.merged(b).contains(b),
{
    min_max_bracket(a.minimum.x@, b.minimum.x@);
    min_max_bracket(a.minimum.y@, b.minimum.y@);
    min_max_bracket(a.minimum.z@, b.minimum.z@);
    min_max_bracket(a.maximum.x@, b.maximum.x@);
    min_max_bracket(a.maximum.y@, b.maximum.y@);
    min_max_bracket(a.maximum.z@, b.maximum.z@);
}

/// Containment of boxes is transitive.
pub proof fn containment_is_transitive(a: Aabb, b: Aabb, c: Aabb)
    requires
        a.contains(b),
        b.contains(c),
    ensures
        a.contains(c),
{
}

} // verus!
