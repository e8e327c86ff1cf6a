//! Why a sweep and a hierarchy both report the closest crossing.
//!
//! The statements here are about shapes that answer queries in the usual
//! way: a shape has at most one crossing that counts from a given lower end
//! on, and a query reports it exactly when it lies within the upper end.
//! Spheres, rectangles and triangles behave so in exact arithmetic.

use vstd::prelude::*;
use crate::aabb::Aabb;
use crate::bvh::{BvhNode, same_elements_share_members};
use crate::geometry::{HitRecord, Hittable, later_hit, narrowed_bound, sweep};
use crate::ray::Ray;
use crate::scalar::{Scalar, key_eq, key_is_nan, key_le, INFINITY_KEY};

verus! {

/// What a shape reports when the range has no upper end.
pub open spec fn first_hit<'a, H: Hittable>(shape: H, ray: Ray, t_min: Scalar) -> Option<
    HitRecord<'a, H::Material>,
> {
    shape.hit_spec(ray, t_min, Scalar { key: INFINITY_KEY })
}

/// A result cut off at an upper end: kept where its parameter is not above
/// the end.
pub open spec fn clipped<'a, M>(found: Option<HitRecord<'a, M>>, t_max: Scalar) -> Option<
    HitRecord<'a, M>,
> {
    match found {
        Some(record) => if key_le(record.t@, t_max@) {
            Some(record)
        } else {
            None
        },
        None => None,
    }
}

/// The shape answers every query from `t_min` on with its first crossing,
/// cut off at the query's upper end; the parameter of that crossing is a
/// number not below `t_min`.
pub open spec fn faithful<H: Hittable>(shape: H, ray: Ray, t_min: Scalar) -> bool {
    &&& first_hit(shape, ray, t_min) matches Some(record) ==> !key_is_nan(record.t@) && key_le(
        t_min@,
        record.t@,
    )
    &&& forall|t_max: Scalar|
        !key_is_nan(t_max@) ==> #[trigger] shape.hit_spec(ray, t_min, t_max) == clipped(
            first_hit(shape, ray, t_min),
            t_max,
        )
}

/// Every shape of the sequence is faithful.
pub open spec fn all_faithful<H: Hittable>(shapes: Seq<H>, ray: Ray, t_min: Scalar) -> bool {
    forall|i: int| 0 <= i < shapes.len() ==> faithful(#[trigger] shapes[i], ray, t_min)
}

/// Some shape of the sequence has its first crossing within the upper end.
pub open spec fn reaches<H: Hittable>(shapes: Seq<H>, ray: Ray, t_min: Scalar, t_max: Scalar) -> bool {
    exists|i: int|
        0 <= i < shapes.len() && (#[trigger] clipped(first_hit(shapes[i], ray, t_min), t_max))
            is Some
}

/// `found` is the answer of a brute-force search: a record is the first
/// crossing of one of the shapes, lies within the upper end, and no shape has
/// a first crossing within the upper end that is closer; no record means
/// that no shape has a first crossing within the upper end.
pub open spec fn is_closest<'a, H: Hittable>(
    found: Option<HitRecord<'a, H::Material>>,
    shapes: Seq<H>,
    ray: Ray,
    t_min: Scalar,
    t_max: Scalar,
) -> bool {
    match found {
        Some(record) => {
            &&& !key_is_nan(record.t@)
            &&& key_le(record.t@, t_max@)
            &&& exists|i: int|
                0 <= i < shapes.len() && #[trigger] first_hit(shapes[i], ray, t_min) == Some(
                    record,
                )
            &&& forall|j: int|
                0 <= j < shapes.len() ==> (#[trigger] clipped(
                    first_hit(shapes[j], ray, t_min),
                    t_max,
                ) matches Some(other) ==> key_le(record.t@, other.t@))
        },
        None => !reaches(shapes, ray, t_min, t_max),
    }
}

/// Two results are the same as far as a renderer can tell the distance:
/// both are empty, or both hold a record and the two parameters are equal
/// numbers.
pub open spec fn same_distance<'a, M>(
    one: Option<HitRecord<'a, M>>,
    other: Option<HitRecord<'a, M>>,
) -> bool {
    match (one, other) {
        (Some(a), Some(b)) => key_eq(a.t@, b.t@),
        (None, None) => true,
        _ => false,
    }
}

/// The box of every branch is crossed whenever a shape below it has its
/// first crossing within the range: pruning by the boxes loses nothing.
pub open spec fn prunes_safely<H: Hittable>(node: BvhNode<H>, ray: Ray, t_min: Scalar) -> bool
    decreases node,
{
    match node {
        BvhNode::Leaf(shape) => true,
        BvhNode::Branch { left, right, bbox } => {
            &&& prunes_safely(*left, ray, t_min)
            &&& prunes_safely(*right, ray, t_min)
            &&& forall|t_max: Scalar|
                !key_is_nan(t_max@) && reaches(left.leaves() + right.leaves(), ray, t_min, t_max)
                    ==> #[trigger] bbox.crossed_by::<H>(ray, t_min, t_max)
        },
    }
}

/// A faithful shape alone: what it reports is the closest crossing of the
/// one-element sequence.
pub proof fn single_shape_is_closest<H: Hittable>(shape: H, ray: Ray, t_min: Scalar, t_max: Scalar)
    requires
        faithful(shape, ray, t_min),
        !key_is_nan(t_max@),
    ensures
        is_closest(shape.hit_spec(ray, t_min, t_max), seq![shape], ray, t_min, t_max),
{
    let shapes = seq![shape];
    let found = shape.hit_spec(ray, t_min, t_max);
    assert(shapes[0] == shape);
    assert(found == clipped(first_hit(shape, ray, t_min), t_max));
    match found {
        Some(record) => {
            assert(first_hit(shapes[0], ray, t_min) == Some(record));
        },
        None => {
            if reaches(shapes, ray, t_min, t_max) {
                let i = choose|i: int|
                    0 <= i < shapes.len() && (#[trigger] clipped(
                        first_hit(shapes[i], ray, t_min),
                        t_max,
                    )) is Some;
                assert(shapes[i] == shape);
            }
        },
    }
}

/// The two-step narrowing: if `near` is the closest crossing among `xs` and
/// `far` the closest among `ys` within what `near` left of the range, then
/// `far`, or `near` where `far` is empty, is the closest among all.
pub proof fn narrowing_finds_closest<'a, H: Hittable>(
    xs: Seq<H>,
    ys: Seq<H>,
    near: Option<HitRecord<'a, H::Material>>,
    far: Option<HitRecord<'a, H::Material>>,
    ray: Ray,
    t_min: Scalar,
    t_max: Scalar,
)
    requires
        all_faithful(xs, ray, t_min),
        all_faithful(ys, ray, t_min),
        !key_is_nan(t_max@),
        is_closest(near, xs, ray, t_min, t_max),
        is_closest(far, ys, ray, t_min, narrowed_bound(near, t_max)),
    ensures
        is_closest(later_hit(near, far), xs + ys, ray, t_min, t_max),
{
    let all = xs + ys;
    let bound = narrowed_bound(near, t_max);
    let found = later_hit(near, far);
    assert forall|j: int| 0 <= j < all.len() implies (all[j] == if j < xs.len() {
        xs[j]
    } else {
        ys[j - xs.len()]
    }) by {}
    match found {
        Some(record) => {
            if far is Some {
                let i = choose|i: int|
                    0 <= i < ys.len() && #[trigger] first_hit(ys[i], ray, t_min) == Some(record);
                assert(all[i + xs.len()] == ys[i]);
                assert(first_hit(all[i + xs.len()], ray, t_min) == Some(record));
            } else {
                let i = choose|i: int|
                    0 <= i < xs.len() && #[trigger] first_hit(xs[i], ray, t_min) == Some(record);
                assert(all[i] == xs[i]);
                assert(first_hit(all[i], ray, t_min) == Some(record));
            }
            assert forall|j: int| 0 <= j < all.len() implies (#[trigger] clipped(
                first_hit(all[j], ray, t_min),
                t_max,
            ) matches Some(other) ==> key_le(record.t@, other.t@)) by {
                if clipped(first_hit(all[j], ray, t_min), t_max) is Some {
                    let other = clipped(first_hit(all[j], ray, t_min), t_max)->0;
                    if j < xs.len() {
                        assert(all[j] == xs[j]);
                        assert(faithful(xs[j], ray, t_min));
                        assert(clipped(first_hit(xs[j], ray, t_min), t_max) is Some);
                        if near is None {
                            assert(reaches(xs, ray, t_min, t_max));
                        }
                    } else {
                        let k = j - xs.len();
                        assert(all[j] == ys[k]);
                        assert(faithful(ys[k], ray, t_min));
                        if far is Some {
                            if clipped(first_hit(ys[k], ray, t_min), bound) is Some {
                            }
                        } else {
                            if clipped(first_hit(ys[k], ray, t_min), bound) is Some {
                                assert(reaches(ys, ray, t_min, bound));
                            }
                        }
                    }
                }
            }
        },
        None => {
            if reaches(all, ray, t_min, t_max) {
                let j = choose|j: int|
                    0 <= j < all.len() && (#[trigger] clipped(
                        first_hit(all[j], ray, t_min),
                        t_max,
                    )) is Some;
                if j < xs.len() {
                    assert(all[j] == xs[j]);
                    assert(clipped(first_hit(xs[j], ray, t_min), t_max) is Some);
                    assert(reaches(xs, ray, t_min, t_max));
                } else {
                    let k = j - xs.len();
                    assert(all[j] == ys[k]);
                    assert(clipped(first_hit(ys[k], ray, t_min), bound) is Some);
                    assert(reaches(ys, ray, t_min, bound));
                }
            }
        },
    }
}

/// A sweep over faithful shapes reports the closest crossing: the record it
/// returns is a minimum over the whole tested range.
pub proof fn sweep_finds_closest<H: Hittable>(shapes: Seq<H>, ray: Ray, t_min: Scalar, t_max: Scalar)
    requires
        all_faithful(shapes, ray, t_min),
        !key_is_nan(t_max@),
    ensures
        is_closest(sweep(shapes, ray, t_min, t_max), shapes, ray, t_min, t_max),
    decreases shapes.len(),
{
    if shapes.len() == 0 {
        assert(!reaches(shapes, ray, t_min, t_max));
    } else {
        let front = shapes.drop_last();
        let before = sweep(front, ray, t_min, t_max);
        let bound = narrowed_bound(before, t_max);
        assert forall|i: int| 0 <= i < front.len() implies faithful(
            #[trigger] front[i],
            ray,
            t_min,
        ) by {
            assert(front[i] == shapes[i]);
        }
        sweep_finds_closest(front, ray, t_min, t_max);
        assert(faithful(shapes.last(), ray, t_min));
        single_shape_is_closest(shapes.last(), ray, t_min, bound);
        assert(all_faithful(seq![shapes.last()], ray, t_min)) by {
            assert forall|i: int| 0 <= i < seq![shapes.last()].len() implies faithful(
                #[trigger] seq![shapes.last()][i],
                ray,
                t_min,
            ) by {
                assert(seq![shapes.last()][i] == shapes.last());
            }
        }
        narrowing_finds_closest(
            front,
            seq![shapes.last()],
            before,
            shapes.last().hit_spec(ray, t_min, bound),
            ray,
            t_min,
            t_max,
        );
        assert(front + seq![shapes.last()] =~= shapes);
    }
}

/// A list of faithful shapes is a faithful shape: what its sweep reports
/// within an upper end is what it reports without one, cut off at that end.
/// So a list, such as the six faces of a box, can stand in a hierarchy like
/// any other shape.
pub proof fn sweep_is_faithful<H: Hittable>(shapes: Seq<H>, ray: Ray, t_min: Scalar)
    requires
        all_faithful(shapes, ray, t_min),
    ensures
        sweep(shapes, ray, t_min, Scalar { key: INFINITY_KEY }) matches Some(record)
            ==> !key_is_nan(record.t@) && key_le(t_min@, record.t@),
        forall|t_max: Scalar|
            !key_is_nan(t_max@) ==> #[trigger] sweep(shapes, ray, t_min, t_max) == clipped(
                sweep(shapes, ray, t_min, Scalar { key: INFINITY_KEY }),
                t_max,
            ),
    decreases shapes.len(),
{
    let unbounded = Scalar { key: INFINITY_KEY };
    if shapes.len() > 0 {
        let front = shapes.drop_last();
        let last = shapes.last();
        assert forall|i: int| 0 <= i < front.len() implies faithful(
            #[trigger] front[i],
            ray,
            t_min,
        ) by {
            assert(front[i] == shapes[i]);
        }
        sweep_is_faithful(front, ray, t_min);
        assert(faithful(last, ray, t_min));
        let before_all = sweep(front, ray, t_min, unbounded);
        let bound_all = narrowed_bound(before_all, unbounded);
        assert(last.hit_spec(ray, t_min, bound_all) == clipped(first_hit(last, ray, t_min), bound_all));
        assert forall|t_max: Scalar| !key_is_nan(t_max@) implies #[trigger] sweep(
            shapes,
            ray,
            t_min,
            t_max,
        ) == clipped(sweep(shapes, ray, t_min, unbounded), t_max) by {
            let before = sweep(front, ray, t_min, t_max);
            assert(before == clipped(before_all, t_max));
            let bound = narrowed_bound(before, t_max);
            assert(last.hit_spec(ray, t_min, bound) == clipped(first_hit(last, ray, t_min), bound));
        }
    }
}

/// A hierarchy over faithful shapes whose boxes prune safely reports the
/// closest crossing among its shapes.
pub proof fn traversal_finds_closest<H: Hittable>(
    node: BvhNode<H>,
    ray: Ray,
    t_min: Scalar,
    t_max: Scalar,
)
    requires
        all_faithful(node.leaves(), ray, t_min),
        prunes_safely(node, ray, t_min),
        !key_is_nan(t_max@),
    ensures
        is_closest(node.traverse(ray, t_min, t_max), node.leaves(), ray, t_min, t_max),
    decreases node,
{
    match node {
        BvhNode::Leaf(shape) => {
            assert(node.leaves()[0] == shape);
            single_shape_is_closest(shape, ray, t_min, t_max);
        },
        BvhNode::Branch { left, right, bbox } => {
            let xs = left.leaves();
            let ys = right.leaves();
            assert forall|i: int| 0 <= i < xs.len() implies faithful(
                #[trigger] xs[i],
                ray,
                t_min,
            ) by {
                assert(xs[i] == node.leaves()[i]);
            }
            assert forall|i: int| 0 <= i < ys.len() implies faithful(
                #[trigger] ys[i],
                ray,
                t_min,
            ) by {
                assert(ys[i] == node.leaves()[i + xs.len()]);
            }
            if bbox.crossed_by::<H>(ray, t_min, t_max) {
                traversal_finds_closest(*left, ray, t_min, t_max);
                let near = left.traverse(ray, t_min, t_max);
                let bound = narrowed_bound(near, t_max);
                traversal_finds_closest(*right, ray, t_min, bound);
                narrowing_finds_closest(
                    xs,
                    ys,
                    near,
                    right.traverse(ray, t_min, bound),
                    ray,
                    t_min,
                    t_max,
                );
            }
        },
    }
}

/// The closest-hit property of the hierarchy: over faithful shapes, and
/// with boxes that prune safely, a hierarchy and a linear scan of its shapes
/// agree on whether the ray hits anything and on the distance of the hit.
pub proof fn traversal_agrees_with_linear_scan<H: Hittable>(
    node: BvhNode<H>,
    ray: Ray,
    t_min: Scalar,
    t_max: Scalar,
)
    requires
        all_faithful(node.leaves(), ray, t_min),
        prunes_safely(node, ray, t_min),
        !key_is_nan(t_max@),
    ensures
        same_distance(
            node.traverse(ray, t_min, t_max),
            sweep(node.leaves(), ray, t_min, t_max),
        ),
{
    let shapes = node.leaves();
    let by_tree = node.traverse(ray, t_min, t_max);
    let by_scan = sweep(shapes, ray, t_min, t_max);
    traversal_finds_closest(node, ray, t_min, t_max);
    sweep_finds_closest(shapes, ray, t_min, t_max);
    closest_is_unique(by_tree, by_scan, shapes, ray, t_min, t_max);
}

/// The closest-hit property of a built hierarchy: a hierarchy that holds
/// the shapes of a scene, in whatever order construction left them, agrees
/// with a linear scan of the scene in its own order, on whether the ray
/// hits anything and on the distance of the hit. The shapes have to be
/// faithful, their boxes ordered and crossed whenever they are hit, and the
/// arithmetic of the slab test has to find an ordered box crossed whenever
/// an ordered box inside it is crossed.
pub proof fn built_hierarchy_agrees_with_linear_scan<H: Hittable>(
    node: BvhNode<H>,
    source_objects: Seq<H>,
    ray: Ray,
    t_min: Scalar,
    t_max: Scalar,
)
    requires
        node.well_formed(),
        node.leaves().to_multiset() == source_objects.to_multiset(),
        all_faithful(source_objects, ray, t_min),
        !key_is_nan(t_max@),
        forall|i: int|
            0 <= i < source_objects.len() ==> (#[trigger] source_objects[i]).bounds().is_ordered(),
        forall|i: int, end: Scalar|
            0 <= i < source_objects.len() && !key_is_nan(end@) && (#[trigger] clipped(
                first_hit(source_objects[i], ray, t_min),
                end,
            )) is Some ==> source_objects[i].bounds().crossed_by::<H>(ray, t_min, end),
        forall|inner: Aabb, outer: Aabb, end: Scalar|
            inner.is_ordered() && outer.is_ordered() && outer.contains(inner)
                && #[trigger] inner.crossed_by::<H>(ray, t_min, end)
                ==> #[trigger] outer.crossed_by::<H>(ray, t_min, end),
    ensures
        same_distance(
            node.traverse(ray, t_min, t_max),
            sweep(source_objects, ray, t_min, t_max),
        ),
{
    let shapes = node.leaves();
    assert forall|i: int| 0 <= i < shapes.len() implies faithful(#[trigger] shapes[i], ray, t_min) by {
        let k = same_elements_share_members(shapes, source_objects, i);
    }
    assert forall|i: int| 0 <= i < shapes.len() implies (#[trigger] shapes[i]).bounds().is_ordered() by {
        let k = same_elements_share_members(shapes, source_objects, i);
    }
    assert forall|i: int, end: Scalar|
        0 <= i < shapes.len() && !key_is_nan(end@) && (#[trigger] clipped(
            first_hit(shapes[i], ray, t_min),
            end,
        )) is Some implies shapes[i].bounds().crossed_by::<H>(ray, t_min, end) by {
        let k = same_elements_share_members(shapes, source_objects, i);
        assert(clipped(first_hit(source_objects[k], ray, t_min), end) is Some);
    }
    nested_boxes_prune_safely(node, ray, t_min);
    traversal_finds_closest(node, ray, t_min, t_max);
    sweep_finds_closest(source_objects, ray, t_min, t_max);
    let by_scan = sweep(source_objects, ray, t_min, t_max);
    match by_scan {
        Some(record) => {
            let i = choose|i: int|
                0 <= i < source_objects.len() && #[trigger] first_hit(
                    source_objects[i],
                    ray,
                    t_min,
                ) == Some(record);
            let k = same_elements_share_members(source_objects, shapes, i);
            assert(first_hit(shapes[k], ray, t_min) == Some(record));
            assert forall|j: int| 0 <= j < shapes.len() implies (#[trigger] clipped(
                first_hit(shapes[j], ray, t_min),
                t_max,
            ) matches Some(other) ==> key_le(record.t@, other.t@)) by {
                let m = same_elements_share_members(shapes, source_objects, j);
                assert(clipped(first_hit(source_objects[m], ray, t_min), t_max) == clipped(
                    first_hit(shapes[j], ray, t_min),
                    t_max,
                ));
            }
        },
        None => {
            if reaches(shapes, ray, t_min, t_max) {
                let j = choose|j: int|
                    0 <= j < shapes.len() && (#[trigger] clipped(
                        first_hit(shapes[j], ray, t_min),
                        t_max,
                    )) is Some;
                let m = same_elements_share_members(shapes, source_objects, j);
                assert(clipped(first_hit(source_objects[m], ray, t_min), t_max) is Some);
                assert(reaches(source_objects, ray, t_min, t_max));
            }
        },
    }
    closest_is_unique(node.traverse(ray, t_min, t_max), by_scan, shapes, ray, t_min, t_max);
}

/// Two answers of a brute-force search over the same shapes lie at the same
/// distance.
pub proof fn closest_is_unique<'a, H: Hittable>(
    one: Option<HitRecord<'a, H::Material>>,
    other: Option<HitRecord<'a, H::Material>>,
    shapes: Seq<H>,
    ray: Ray,
    t_min: Scalar,
    t_max: Scalar,
)
    requires
        is_closest(one, shapes, ray, t_min, t_max),
        is_closest(other, shapes, ray, t_min, t_max),
    ensures
        same_distance(one, other),
{
    if one is Some {
        let a = one->0;
        let i = choose|i: int|
            0 <= i < shapes.len() && #[trigger] first_hit(shapes[i], ray, t_min) == Some(a);
        assert(clipped(first_hit(shapes[i], ray, t_min), t_max) == Some(a));
        assert(reaches(shapes, ray, t_min, t_max));
    }
    if other is Some {
        let b = other->0;
        let k = choose|k: int|
            0 <= k < shapes.len() && #[trigger] first_hit(shapes[k], ray, t_min) == Some(b);
        assert(clipped(first_hit(shapes[k], ray, t_min), t_max) == Some(b));
        assert(reaches(shapes, ray, t_min, t_max));
    }
}

/// Boxes that nest prune safely: if the arithmetic finds every shape's own
/// box crossed whenever the shape is hit, and finds an ordered box crossed
/// whenever an ordered box inside it is crossed, then no branch of a
/// well-formed hierarchy over ordered boxes is skipped wrongly.
pub proof fn nested_boxes_prune_safely<H: Hittable>(node: BvhNode<H>, ray: Ray, t_min: Scalar)
    requires
        node.well_formed(),
        node.leaf_boxes_ordered(),
        forall|i: int, t_max: Scalar|
            0 <= i < node.leaves().len() && !key_is_nan(t_max@) && (#[trigger] clipped(
                first_hit(node.leaves()[i], ray, t_min),
                t_max,
            )) is Some ==> node.leaves()[i].bounds().crossed_by::<H>(ray, t_min, t_max),
        forall|inner: Aabb, outer: Aabb, t_max: Scalar|
            inner.is_ordered() && outer.is_ordered() && outer.contains(inner)
                && #[trigger] inner.crossed_by::<H>(ray, t_min, t_max)
                ==> #[trigger] outer.crossed_by::<H>(ray, t_min, t_max),
    ensures
        prunes_safely(node, ray, t_min),
    decreases node,
{
    match node {
        BvhNode::Leaf(shape) => {},
        BvhNode::Branch { left, right, bbox } => {
            let xs = left.leaves();
            let ys = right.leaves();
            let all = xs + ys;
            assert forall|i: int| 0 <= i < xs.len() implies (#[trigger] xs[i]).bounds().is_ordered() by {
                assert(xs[i] == node.leaves()[i]);
            }
            assert forall|i: int| 0 <= i < ys.len() implies (#[trigger] ys[i]).bounds().is_ordered() by {
                assert(ys[i] == node.leaves()[i + xs.len()]);
            }
            assert forall|i: int, t_max: Scalar|
                0 <= i < xs.len() && !key_is_nan(t_max@) && (#[trigger] clipped(
                    first_hit(xs[i], ray, t_min),
                    t_max,
                )) is Some implies xs[i].bounds().crossed_by::<H>(ray, t_min, t_max) by {
                assert(xs[i] == node.leaves()[i]);
            }
            assert forall|i: int, t_max: Scalar|
                0 <= i < ys.len() && !key_is_nan(t_max@) && (#[trigger] clipped(
                    first_hit(ys[i], ray, t_min),
                    t_max,
                )) is Some implies ys[i].bounds().crossed_by::<H>(ray, t_min, t_max) by {
                assert(ys[i] == node.leaves()[i + xs.len()]);
            }
            nested_boxes_prune_safely(*left, ray, t_min);
            nested_boxes_prune_safely(*right, ray, t_min);
            node.boxes_nest();
            assert forall|t_max: Scalar|
                !key_is_nan(t_max@) && reaches(all, ray, t_min, t_max) implies #[trigger] bbox.crossed_by::<
                H,
            >(ray, t_min, t_max) by {
                let i = choose|i: int|
                    0 <= i < all.len() && (#[trigger] clipped(
                        first_hit(all[i], ray, t_min),
                        t_max,
                    )) is Some;
                assert(all[i] == node.leaves()[i]);
                assert(node.leaves()[i].bounds().crossed_by::<H>(ray, t_min, t_max));
                assert(bbox.contains(node.leaves()[i].bounds()));
            }
        },
    }
}

} // verus!
