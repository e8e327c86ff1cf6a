//! The bounding-volume hierarchy: a binary tree of nested boxes over a set
//! of shapes, built once and then only read.

use vstd::prelude::*;
use vstd::multiset::Multiset;
use rand::Rng;
use crate::aabb::{Aabb, Slabs, containment_is_transitive, merged_box_contains_both};
use crate::geometry::{HitRecord, Hittable, later_hit, narrowed_bound};
use crate::ray::Ray;
use crate::scalar::Scalar;

verus! {

/// The number by which a shape is ordered along an axis: the order key of
/// the minimum corner of its box on that axis.
pub open spec fn axis_key<H: Hittable>(shape: H, axis: int) -> int {
    shape.bounds().minimum.on_axis(axis)@
}

/// Every shape of the sequence has a box.
pub open spec fn all_bounded<H: Hittable>(shapes: Seq<H>) -> bool {
    forall|i: int| 0 <= i < shapes.len() ==> (#[trigger] shapes[i]).is_bounded()
}

/// The sequence ascends along the axis.
pub open spec fn ascends_along<H: Hittable>(shapes: Seq<H>, axis: int) -> bool {
    forall|i: int, j: int|
        0 <= i <= j < shapes.len() ==> #[trigger] axis_key(shapes[i], axis) <= #[trigger] axis_key(
            shapes[j],
            axis,
        )
}

/// The sequence descends along the axis.
pub open spec fn descends_along<H: Hittable>(shapes: Seq<H>, axis: int) -> bool {
    forall|i: int, j: int|
        0 <= i <= j < shapes.len() ==> #[trigger] axis_key(shapes[i], axis) >= #[trigger] axis_key(
            shapes[j],
            axis,
        )
}

/// No shape of `low` lies above a shape of `high` along the axis.
pub open spec fn splits_along<H: Hittable>(low: Seq<H>, high: Seq<H>, axis: int) -> bool {
    forall|i: int, j: int|
        0 <= i < low.len() && 0 <= j < high.len() ==> #[trigger] axis_key(low[i], axis)
            <= #[trigger] axis_key(high[j], axis)
}

/// Moving the last element of one sequence to the end of another leaves the
/// elements of the two together as they were.
proof fn moving_keeps_elements<A>(source: Seq<A>, target: Seq<A>, moved: A)
    ensures
        source.push(moved).to_multiset() == source.to_multiset().insert(moved),
        target.push(moved).to_multiset() == target.to_multiset().insert(moved),
        source.push(moved).to_multiset().add(target.to_multiset()) == source.to_multiset().add(
            target.push(moved).to_multiset(),
        ),
        Seq::<A>::empty().to_multiset() == Multiset::<A>::empty(),
{
    broadcast use vstd::multiset::group_multiset_axioms;

    vstd::seq_lib::to_multiset_build(source, moved);
    vstd::seq_lib::to_multiset_build(target, moved);
    vstd::seq_lib::to_multiset_len(Seq::<A>::empty());
    vstd::multiset::lemma_multiset_empty_len(Seq::<A>::empty().to_multiset());
    assert(Seq::<A>::empty().to_multiset() =~= Multiset::<A>::empty());
    assert(source.push(moved).to_multiset().add(target.to_multiset()) =~= source.to_multiset().add(
        target.push(moved).to_multiset(),
    ));
}

/// Draws a number below `bound` with `rand::Rng::gen_range` on the
/// generator that `rand::thread_rng` hands out. Of the draw only its range
/// is claimed: `gen_range` over the half-open range from 0 to `bound`, which
/// must not be empty, returns a value of that range.
#[verifier::external_body]
fn random_below(bound: usize) -> (drawn: usize)
    requires
        bound > 0,
    ensures
        drawn < bound,
{
    rand::thread_rng().gen_range(0..bound)
}

/// The order key of a shape along an axis.
fn key_along<H: Hittable>(shape: &H, axis: usize) -> (key: i64)
    requires
        shape.is_bounded(),
        axis < 3,
    ensures
        key == axis_key(*shape, axis as int),
{
    shape.bounding_box().minimum.axis(axis).key
}

/// Two runs merged into one, from their ends: the last of the two last
/// shapes is the one of `high`, unless the one of `low` has the larger key.
/// Where a shape of `low` and a shape of `high` have the same key, the one
/// of `low` comes first.
pub open spec fn merged_runs<H: Hittable>(low: Seq<H>, high: Seq<H>, axis: int) -> Seq<H>
    decreases low.len() + high.len(),
{
    if high.len() == 0 {
        low
    } else if low.len() == 0 {
        high
    } else if axis_key(low.last(), axis) <= axis_key(high.last(), axis) {
        merged_runs(low, high.drop_last(), axis).push(high.last())
    } else {
        merged_runs(low.drop_last(), high, axis).push(low.last())
    }
}

/// The shapes in ascending order along an axis, shapes with the same key
/// in the order in which they were given: every shape is put behind all
/// shapes before it whose key is not larger.
pub open spec fn sorted_along<H: Hittable>(shapes: Seq<H>, axis: int) -> Seq<H>
    decreases shapes.len(),
{
    if shapes.len() == 0 {
        shapes
    } else {
        merged_runs(sorted_along(shapes.drop_last(), axis), seq![shapes.last()], axis)
    }
}

/// Merging a shape in last is the same whether it is merged into the
/// merge of two runs or into the second of them first.
proof fn merging_is_associative<H: Hittable>(low: Seq<H>, high: Seq<H>, shape: H, axis: int)
    ensures
        merged_runs(merged_runs(low, high, axis), seq![shape], axis) == merged_runs(
            low,
            merged_runs(high, seq![shape], axis),
            axis,
        ),
    decreases low.len() + high.len(),
{
    let one = seq![shape];
    assert(one.last() == shape);
    assert(one.drop_last() =~= Seq::<H>::empty());
    if high.len() == 0 {
        assert(merged_runs(high, one, axis) == one);
    } else if low.len() == 0 {
        let inner = merged_runs(high, one, axis);
        assert(inner.len() > 0) by {
            if axis_key(high.last(), axis) <= axis_key(shape, axis) {
                assert(merged_runs(high, one.drop_last(), axis) == high);
            }
        }
    } else if axis_key(low.last(), axis) <= axis_key(high.last(), axis) {
        let front = merged_runs(low, high.drop_last(), axis);
        assert(merged_runs(low, high, axis) == front.push(high.last()));
        assert(front.push(high.last()).last() == high.last());
        assert(front.push(high.last()).drop_last() =~= front);
        if axis_key(high.last(), axis) <= axis_key(shape, axis) {
            assert(merged_runs(front.push(high.last()), one.drop_last(), axis) == front.push(
                high.last(),
            ));
            assert(merged_runs(high, one.drop_last(), axis) == high);
            assert(merged_runs(high, one, axis) == high.push(shape));
            assert(high.push(shape).last() == shape);
            assert(high.push(shape).drop_last() =~= high);
        } else {
            merging_is_associative(low, high.drop_last(), shape, axis);
            let inner = merged_runs(high.drop_last(), one, axis);
            assert(merged_runs(high, one, axis) == inner.push(high.last()));
            assert(inner.push(high.last()).last() == high.last());
            assert(inner.push(high.last()).drop_last() =~= inner);
        }
    } else {
        let front = merged_runs(low.drop_last(), high, axis);
        assert(merged_runs(low, high, axis) == front.push(low.last()));
        assert(front.push(low.last()).last() == low.last());
        assert(front.push(low.last()).drop_last() =~= front);
        if axis_key(low.last(), axis) <= axis_key(shape, axis) {
            assert(merged_runs(front.push(low.last()), one.drop_last(), axis) == front.push(
                low.last(),
            ));
            assert(merged_runs(high, one.drop_last(), axis) == high);
            assert(merged_runs(high, one, axis) == high.push(shape));
            assert(high.push(shape).last() == shape);
            assert(high.push(shape).drop_last() =~= high);
        } else {
            merging_is_associative(low.drop_last(), high, shape, axis);
            let inner = merged_runs(high, one, axis);
            if axis_key(high.last(), axis) <= axis_key(shape, axis) {
                assert(merged_runs(high, one.drop_last(), axis) == high);
                assert(inner == high.push(shape));
                assert(inner.last() == shape);
            } else {
                let rest = merged_runs(high.drop_last(), one, axis);
                assert(inner == rest.push(high.last()));
                assert(inner.last() == high.last());
            }
        }
    }
}

/// Sorting two runs and merging them sorts the two together.
proof fn merging_sorts<H: Hittable>(low: Seq<H>, high: Seq<H>, axis: int)
    ensures
        merged_runs(sorted_along(low, axis), sorted_along(high, axis), axis) == sorted_along(
            low + high,
            axis,
        ),
    decreases high.len(),
{
    if high.len() == 0 {
        assert(low + high =~= low);
    } else {
        let front = high.drop_last();
        merging_sorts(low, front, axis);
        merging_is_associative(
            sorted_along(low, axis),
            sorted_along(front, axis),
            high.last(),
            axis,
        );
        assert((low + high).drop_last() =~= low + front);
        assert((low + high).last() == high.last());
    }
}

/// Merges two ascending runs into one. Where a shape of `low` and a shape of
/// `high` have the same key, the one of `low` comes first.
fn merge_along<H: Hittable>(low: Vec<H>, high: Vec<H>, axis: usize) -> (merged: Vec<H>)
    requires
        axis < 3,
        all_bounded(low@),
        all_bounded(high@),
        ascends_along(low@, axis as int),
        ascends_along(high@, axis as int),
    ensures
        merged@ == merged_runs(low@, high@, axis as int),
        all_bounded(merged@),
        ascends_along(merged@, axis as int),
        merged@.to_multiset() == low@.to_multiset().add(high@.to_multiset()),
        merged@.len() == low@.len() + high@.len(),
{
    broadcast use vstd::multiset::group_multiset_axioms;
    broadcast use vstd::seq_lib::to_multiset_build;

    let ghost total = low@.to_multiset().add(high@.to_multiset());
    let ghost count = low@.len() + high@.len();
    let ghost whole = merged_runs(low@, high@, axis as int);
    let ghost mut tail = Seq::<H>::empty();
    let mut low = low;
    let mut high = high;
    let mut falling: Vec<H> = Vec::new();
    proof {
        moving_keeps_elements(low@, falling@, low@[0]);
        assert(low@.to_multiset().add(high@.to_multiset()).add(falling@.to_multiset()) =~= total);
        assert(whole =~= merged_runs(low@, high@, axis as int) + tail);
    }
    while low.len() > 0 || high.len() > 0
        invariant
            whole == merged_runs(low@, high@, axis as int) + tail,
            tail.len() == falling@.len(),
            forall|i: int| 0 <= i < tail.len() ==> tail[i] == falling@[falling@.len() - 1 - i],
            axis < 3,
            all_bounded(low@),
            all_bounded(high@),
            all_bounded(falling@),
            ascends_along(low@, axis as int),
            ascends_along(high@, axis as int),
            descends_along(falling@, axis as int),
            splits_along(low@, falling@, axis as int),
            splits_along(high@, falling@, axis as int),
            low@.to_multiset().add(high@.to_multiset()).add(falling@.to_multiset()) == total,
            low@.len() + high@.len() + falling@.len() == count,
        decreases low@.len() + high@.len(),
    {
        let from_high = if high.len() == 0 {
            false
        } else if low.len() == 0 {
            true
        } else {
            key_along(&low[low.len() - 1], axis) <= key_along(&high[high.len() - 1], axis)
        };
        let ghost low_before = low@;
        let ghost high_before = high@;
        let ghost falling_before = falling@;
        if from_high {
            let shape = high.pop().unwrap();
            proof {
                assert(high_before == high@.push(shape));
                assert forall|i: int, j: int|
                    0 <= i <= j < falling_before.push(shape).len() implies #[trigger] axis_key(
                    falling_before.push(shape)[i],
                    axis as int,
                ) >= #[trigger] axis_key(falling_before.push(shape)[j], axis as int) by {
                    if j == falling_before.len() && i < j {
                        assert(axis_key(high_before[high_before.len() - 1], axis as int)
                            <= axis_key(falling_before[i], axis as int));
                    }
                }
                assert forall|i: int, j: int|
                    0 <= i < low@.len() && 0 <= j < falling_before.push(
                        shape,
                    ).len() implies #[trigger] axis_key(low@[i], axis as int)
                    <= #[trigger] axis_key(falling_before.push(shape)[j], axis as int) by {
                    if j == falling_before.len() {
                        assert(axis_key(low@[i], axis as int) <= axis_key(
                            low@[low@.len() - 1],
                            axis as int,
                        ));
                    }
                }
                assert forall|i: int, j: int|
                    0 <= i < high@.len() && 0 <= j < falling_before.push(
                        shape,
                    ).len() implies #[trigger] axis_key(high@[i], axis as int)
                    <= #[trigger] axis_key(falling_before.push(shape)[j], axis as int) by {
                    assert(high@[i] == high_before[i]);
                    if j == falling_before.len() {
                        assert(axis_key(high_before[i], axis as int) <= axis_key(
                            high_before[high_before.len() - 1],
                            axis as int,
                        ));
                    } else {
                        assert(axis_key(high_before[i], axis as int) <= axis_key(
                            falling_before[j],
                            axis as int,
                        ));
                    }
                }
                assert forall|i: int| 0 <= i < high@.len() implies (#[trigger] high@[i]).is_bounded() by {
                    assert(high@[i] == high_before[i]);
                }
                assert forall|i: int, j: int| 0 <= i <= j < high@.len() implies #[trigger] axis_key(
                    high@[i],
                    axis as int,
                ) <= #[trigger] axis_key(high@[j], axis as int) by {
                    assert(high@[i] == high_before[i]);
                    assert(high@[j] == high_before[j]);
                }
            }
            falling.push(shape);
            proof {
                moving_keeps_elements(high@, falling_before, shape);
                assert(low@.to_multiset().add(high@.to_multiset()).add(falling@.to_multiset())
                    =~= total);
                assert(high_before.last() == shape);
                assert(high_before.drop_last() =~= high@);
                let rest = merged_runs(low@, high@, axis as int);
                assert(merged_runs(low@, high_before, axis as int) == rest.push(shape)) by {
                    if low@.len() == 0 {
                        assert(rest == if high@.len() == 0 {
                            low@
                        } else {
                            high@
                        });
                        assert(rest =~= high@);
                    }
                }
                assert(whole =~= rest + (seq![shape] + tail));
                tail = seq![shape] + tail;
            }
        } else {
            let shape = low.pop().unwrap();
            proof {
                assert(low_before == low@.push(shape));
                assert forall|i: int, j: int|
                    0 <= i <= j < falling_before.push(shape).len() implies #[trigger] axis_key(
                    falling_before.push(shape)[i],
                    axis as int,
                ) >= #[trigger] axis_key(falling_before.push(shape)[j], axis as int) by {
                    if j == falling_before.len() && i < j {
                        assert(axis_key(low_before[low_before.len() - 1], axis as int) <= axis_key(
                            falling_before[i],
                            axis as int,
                        ));
                    }
                }
                assert forall|i: int, j: int|
                    0 <= i < high@.len() && 0 <= j < falling_before.push(
                        shape,
                    ).len() implies #[trigger] axis_key(high@[i], axis as int)
                    <= #[trigger] axis_key(falling_before.push(shape)[j], axis as int) by {
                    if j == falling_before.len() {
                        assert(axis_key(high@[i], axis as int) <= axis_key(
                            high@[high@.len() - 1],
                            axis as int,
                        ));
                    }
                }
                assert forall|i: int, j: int|
                    0 <= i < low@.len() && 0 <= j < falling_before.push(
                        shape,
                    ).len() implies #[trigger] axis_key(low@[i], axis as int)
                    <= #[trigger] axis_key(falling_before.push(shape)[j], axis as int) by {
                    assert(low@[i] == low_before[i]);
                    if j == falling_before.len() {
                        assert(axis_key(low_before[i], axis as int) <= axis_key(
                            low_before[low_before.len() - 1],
                            axis as int,
                        ));
                    } else {
                        assert(axis_key(low_before[i], axis as int) <= axis_key(
                            falling_before[j],
                            axis as int,
                        ));
                    }
                }
                assert forall|i: int| 0 <= i < low@.len() implies (#[trigger] low@[i]).is_bounded() by {
                    assert(low@[i] == low_before[i]);
                }
                assert forall|i: int, j: int| 0 <= i <= j < low@.len() implies #[trigger] axis_key(
                    low@[i],
                    axis as int,
                ) <= #[trigger] axis_key(low@[j], axis as int) by {
                    assert(low@[i] == low_before[i]);
                    assert(low@[j] == low_before[j]);
                }
            }
            falling.push(shape);
            proof {
                moving_keeps_elements(low@, falling_before, shape);
                assert(low@.to_multiset().add(high@.to_multiset()).add(falling@.to_multiset())
                    =~= total);
                assert(low_before.last() == shape);
                assert(low_before.drop_last() =~= low@);
                let rest = merged_runs(low@, high@, axis as int);
                assert(merged_runs(low_before, high@, axis as int) == rest.push(shape)) by {
                    if high@.len() == 0 {
                        assert(rest == low@);
                    }
                }
                assert(whole =~= rest + (seq![shape] + tail));
                tail = seq![shape] + tail;
            }
        }
    }
    proof {
        assert(low@ =~= Seq::<H>::empty());
        assert(high@ =~= Seq::<H>::empty());
        moving_keeps_elements(low@, high@, falling@[0]);
        assert(falling@.to_multiset() =~= total);
        assert(whole =~= tail);
    }
    let mut merged: Vec<H> = Vec::new();
    proof {
        assert(merged@.to_multiset().add(falling@.to_multiset()) =~= total);
        assert(whole =~= merged@ + tail);
    }
    while falling.len() > 0
        invariant
            whole == merged@ + tail,
            tail.len() == falling@.len(),
            forall|i: int| 0 <= i < tail.len() ==> tail[i] == falling@[falling@.len() - 1 - i],
            all_bounded(falling@),
            all_bounded(merged@),
            descends_along(falling@, axis as int),
            ascends_along(merged@, axis as int),
            splits_along(merged@, falling@, axis as int),
            merged@.to_multiset().add(falling@.to_multiset()) == total,
            merged@.len() + falling@.len() == count,
        decreases falling@.len(),
    {
        let ghost falling_before = falling@;
        let ghost merged_before = merged@;
        let shape = falling.pop().unwrap();
        proof {
            assert(falling_before == falling@.push(shape));
            assert forall|i: int| 0 <= i < falling@.len() implies (#[trigger] falling@[i]).is_bounded() by {
                assert(falling@[i] == falling_before[i]);
            }
            assert forall|i: int, j: int| 0 <= i <= j < falling@.len() implies #[trigger] axis_key(
                falling@[i],
                axis as int,
            ) >= #[trigger] axis_key(falling@[j], axis as int) by {
                assert(falling@[i] == falling_before[i]);
                assert(falling@[j] == falling_before[j]);
            }
            assert forall|i: int, j: int|
                0 <= i <= j < merged_before.push(shape).len() implies #[trigger] axis_key(
                merged_before.push(shape)[i],
                axis as int,
            ) <= #[trigger] axis_key(merged_before.push(shape)[j], axis as int) by {
                if j == merged_before.len() && i < j {
                    assert(axis_key(merged_before[i], axis as int) <= axis_key(
                        falling_before[falling_before.len() - 1],
                        axis as int,
                    ));
                }
            }
            assert forall|i: int, j: int|
                0 <= i < merged_before.push(shape).len() && 0 <= j
                    < falling@.len() implies #[trigger] axis_key(
                merged_before.push(shape)[i],
                axis as int,
            ) <= #[trigger] axis_key(falling@[j], axis as int) by {
                assert(falling@[j] == falling_before[j]);
                if i == merged_before.len() {
                    assert(axis_key(falling_before[j], axis as int) >= axis_key(
                        falling_before[falling_before.len() - 1],
                        axis as int,
                    ));
                } else {
                    assert(axis_key(merged_before[i], axis as int) <= axis_key(
                        falling_before[j],
                        axis as int,
                    ));
                }
            }
        }
        merged.push(shape);
        proof {
            moving_keeps_elements(falling@, merged_before, shape);
            assert(merged@.to_multiset().add(falling@.to_multiset()) =~= total);
            assert(tail[0] == shape);
            assert(whole =~= merged@ + tail.drop_first());
            tail = tail.drop_first();
        }
    }
    proof {
        assert(falling@ =~= Seq::<H>::empty());
        moving_keeps_elements(falling@, falling@, merged@[0]);
        assert(merged@.to_multiset() =~= total);
        assert(whole =~= merged@);
    }
    merged
}

/// Sorts shapes by the minimum corner of their boxes along an axis. The
/// result holds the same shapes, ascending along the axis, and shapes with
/// the same key in the order in which they came.
pub fn sort_along<H: Hittable>(shapes: Vec<H>, axis: usize) -> (sorted: Vec<H>)
    requires
        axis < 3,
        all_bounded(shapes@),
    ensures
        sorted@ == sorted_along(shapes@, axis as int),
        all_bounded(sorted@),
        ascends_along(sorted@, axis as int),
        sorted@.to_multiset() == shapes@.to_multiset(),
        sorted@.len() == shapes@.len(),
    decreases shapes@.len(),
{
    broadcast use vstd::seq_lib::lemma_multiset_commutative;

    if shapes.len() <= 1 {
        proof {
            if shapes@.len() == 1 {
                assert(shapes@.drop_last() =~= Seq::<H>::empty());
                assert(sorted_along(shapes@.drop_last(), axis as int) =~= Seq::<H>::empty());
                assert(seq![shapes@.last()] =~= shapes@);
            }
        }
        return shapes;
    }
    let ghost whole = shapes@;
    let mut low = shapes;
    let middle = low.len() / 2;
    let high = low.split_off(middle);
    proof {
        merging_sorts(low@, high@, axis as int);
        assert(whole == low@ + high@);
        assert forall|i: int| 0 <= i < low@.len() implies (#[trigger] low@[i]).is_bounded() by {
            assert(low@[i] == whole[i]);
        }
        assert forall|i: int| 0 <= i < high@.len() implies (#[trigger] high@[i]).is_bounded() by {
            assert(high@[i] == whole[i + middle]);
        }
    }
    let low_sorted = sort_along(low, axis);
    let high_sorted = sort_along(high, axis);
    merge_along(low_sorted, high_sorted, axis)
}

/// A hierarchy over shapes of type `H`: a single shape, or two hierarchies
/// under the box that encloses both.
pub enum BvhNode<H> {
    /// A shape, held directly.
    Leaf(H),
    /// Two children and the box around them.
    Branch { left: Box<BvhNode<H>>, right: Box<BvhNode<H>>, bbox: Aabb },
}

/// If two sequences hold the same elements, whatever is at a place of one is
/// at some place of the other.
pub proof fn same_elements_share_members<A>(one: Seq<A>, other: Seq<A>, i: int) -> (k: int)
    requires
        one.to_multiset() == other.to_multiset(),
        0 <= i < one.len(),
    ensures
        0 <= k < other.len(),
        other[k] == one[i],
{
    vstd::seq_lib::to_multiset_contains(one, one[i]);
    vstd::seq_lib::to_multiset_contains(other, one[i]);
    assert(one.contains(one[i]));
    choose|k: int| 0 <= k < other.len() && other[k] == one[i]
}

impl<H: Hittable> BvhNode<H> {
    /// The shapes of the hierarchy, from left to right.
    pub open spec fn leaves(self) -> Seq<H>
        decreases self,
    {
        match self {
            BvhNode::Leaf(shape) => seq![shape],
            BvhNode::Branch { left, right, bbox } => left.leaves() + right.leaves(),
        }
    }

    /// The box of the topmost node: that of the shape for a leaf, the stored
    /// one for a branch.
    pub open spec fn box_of(self) -> Aabb {
        match self {
            BvhNode::Leaf(shape) => shape.bounds(),
            BvhNode::Branch { left, right, bbox } => bbox,
        }
    }

    /// What construction establishes at every branch: the stored box is the
    /// merge of the children's boxes, the left child holds the smaller half
    /// of the shapes, and along one of the three axes no shape on the left
    /// lies above a shape on the right. Every leaf has a box.
    pub open spec fn well_formed(self) -> bool
        decreases self,
    {
        match self {
            BvhNode::Leaf(shape) => shape.is_bounded(),
            BvhNode::Branch { left, right, bbox } => {
                &&& left.well_formed()
                &&& right.well_formed()
                &&& bbox == left.box_of().merged(right.box_of())
                &&& left.leaves().len() == (left.leaves().len() + right.leaves().len()) / 2
                &&& exists|axis: int|
                    0 <= axis < 3 && #[trigger] splits_along(left.leaves(), right.leaves(), axis)
            },
        }
    }

    /// What a query reports. A leaf answers for itself. A branch reports
    /// nothing where the ray misses its box; otherwise the left child is
    /// asked over the whole range, the right child over the range up to what
    /// the left child found, and the right child's answer is taken where
    /// there is one.
    pub open spec fn traverse(&self, ray: Ray, t_min: Scalar, t_max: Scalar) -> Option<
        HitRecord<'_, H::Material>,
    >
        decreases self,
    {
        match self {
            BvhNode::Leaf(shape) => shape.hit_spec(ray, t_min, t_max),
            BvhNode::Branch { left, right, bbox } => {
                if !bbox.crossed_by::<H>(ray, t_min, t_max) {
                    None
                } else {
                    let near = left.traverse(ray, t_min, t_max);
                    later_hit(near, right.traverse(ray, t_min, narrowed_bound(near, t_max)))
                }
            },
        }
    }

    /// Builds the hierarchy over a non-empty set of shapes.
    ///
    /// A single shape becomes a leaf. Otherwise an axis is drawn at random,
    /// the shapes are sorted along it and cut in the middle, and each half is
    /// built in the same way. Whatever is drawn, the result is well formed
    /// and holds exactly the given shapes.
    pub fn new(source_objects: Vec<H>) -> (node: BvhNode<H>)
        requires
            source_objects@.len() > 0,
            all_bounded(source_objects@),
        ensures
            node.well_formed(),
            node.leaves().to_multiset() == source_objects@.to_multiset(),
        decreases source_objects@.len(), 1int,
    {
        let mut objects = source_objects;
        if objects.len() == 1 {
            let shape = objects.pop().unwrap();
            proof {
                assert(source_objects@ =~= seq![shape]);
            }
            return BvhNode::Leaf(shape);
        }
        let axis = random_below(3);
        Self::new_along(objects, axis)
    }

    /// Builds the hierarchy over two or more shapes with the topmost cut made
    /// along the given axis; the axes further down are drawn at random.
    ///
    /// The shapes are sorted along the axis, shapes with the same key staying
    /// in their order; the lower half (rounded down) goes to the left and
    /// the rest to the right.
    pub fn new_along(source_objects: Vec<H>, axis: usize) -> (node: BvhNode<H>)
        requires
            source_objects@.len() >= 2,
            all_bounded(source_objects@),
            axis < 3,
        ensures
            node.well_formed(),
            node.leaves().to_multiset() == source_objects@.to_multiset(),
            node matches BvhNode::Branch { left, right, bbox } && {
                &&& left.leaves().len() == source_objects@.len() / 2
                &&& right.leaves().len() == source_objects@.len() - source_objects@.len() / 2
                &&& splits_along(left.leaves(), right.leaves(), axis as int)
                &&& left.leaves().to_multiset() == sorted_along(
                    source_objects@,
                    axis as int,
                ).subrange(0, source_objects@.len() as int / 2).to_multiset()
                &&& right.leaves().to_multiset() == sorted_along(
                    source_objects@,
                    axis as int,
                ).subrange(
                    source_objects@.len() as int / 2,
                    source_objects@.len() as int,
                ).to_multiset()
            },
        decreases source_objects@.len(), 0int,
    {
        broadcast use vstd::seq_lib::lemma_multiset_commutative;

        let mut low = sort_along(source_objects, axis);
        let ghost sorted = low@;
        let half_index = low.len() / 2;
        let high = low.split_off(half_index);
        proof {
            assert(sorted == low@ + high@);
            assert forall|i: int| 0 <= i < low@.len() implies (#[trigger] low@[i]).is_bounded() by {
                assert(low@[i] == sorted[i]);
            }
            assert forall|i: int| 0 <= i < high@.len() implies (#[trigger] high@[i]).is_bounded() by {
                assert(high@[i] == sorted[i + half_index]);
            }
        }
        let ghost low_shapes = low@;
        let ghost high_shapes = high@;
        let left = Self::new(low);
        let right = Self::new(high);
        proof {
            left.a_well_formed_tree_is_bounded();
            right.a_well_formed_tree_is_bounded();
        }
        let bbox = left.bounding_box().surrounding_box(&right.bounding_box());
        let node = BvhNode::Branch { left: Box::new(left), right: Box::new(right), bbox };
        proof {
            vstd::seq_lib::to_multiset_len(left.leaves());
            vstd::seq_lib::to_multiset_len(right.leaves());
            vstd::seq_lib::to_multiset_len(low_shapes);
            vstd::seq_lib::to_multiset_len(high_shapes);
            assert forall|i: int, j: int|
                0 <= i < left.leaves().len() && 0 <= j
                    < right.leaves().len() implies #[trigger] axis_key(
                left.leaves()[i],
                axis as int,
            ) <= #[trigger] axis_key(right.leaves()[j], axis as int) by {
                let a = same_elements_share_members(left.leaves(), low_shapes, i);
                let b = same_elements_share_members(right.leaves(), high_shapes, j);
                assert(low_shapes[a] == sorted[a]);
                assert(high_shapes[b] == sorted[b + half_index]);
                assert(axis_key(sorted[a], axis as int) <= axis_key(
                    sorted[b + half_index],
                    axis as int,
                ));
            }
            assert(splits_along(left.leaves(), right.leaves(), axis as int));
            assert(node.leaves() == left.leaves() + right.leaves());
            assert(node.leaves().to_multiset() =~= source_objects@.to_multiset());
        }
        node
    }

    /// Every box below a branch lies inside the box of the branch, at every
    /// branch of the hierarchy.
    pub open spec fn nested(self) -> bool
        decreases self,
    {
        match self {
            BvhNode::Leaf(shape) => true,
            BvhNode::Branch { left, right, bbox } => {
                &&& bbox.contains(left.box_of())
                &&& bbox.contains(right.box_of())
                &&& left.nested()
                &&& right.nested()
            },
        }
    }

    /// The box of every shape is ordered: its corners are numbers, the
    /// minimum not above the maximum.
    pub open spec fn leaf_boxes_ordered(self) -> bool {
        forall|i: int|
            0 <= i < self.leaves().len() ==> (#[trigger] self.leaves()[i]).bounds().is_ordered()
    }

    /// The bounding invariant: in a well-formed hierarchy over shapes with
    /// ordered boxes, the box of every branch contains the boxes of its two
    /// children, and the box of the whole contains the box of every shape.
    pub proof fn boxes_nest(self)
        requires
            self.well_formed(),
            self.leaf_boxes_ordered(),
        ensures
            self.nested(),
            self.box_of().is_ordered(),
            forall|i: int|
                0 <= i < self.leaves().len() ==> self.box_of().contains(
                    (#[trigger] self.leaves()[i]).bounds(),
                ),
        decreases self,
    {
        match self {
            BvhNode::Leaf(shape) => {
                assert(self.leaves()[0] == shape);
            },
            BvhNode::Branch { left, right, bbox } => {
                let xs = left.leaves();
                let ys = right.leaves();
                assert forall|i: int| 0 <= i < xs.len() implies (#[trigger] xs[i]).bounds().is_ordered() by {
                    assert(xs[i] == self.leaves()[i]);
                }
                assert forall|i: int| 0 <= i < ys.len() implies (#[trigger] ys[i]).bounds().is_ordered() by {
                    assert(ys[i] == self.leaves()[i + xs.len()]);
                }
                left.boxes_nest();
                right.boxes_nest();
                merged_box_contains_both(left.box_of(), right.box_of());
                assert forall|i: int| 0 <= i < self.leaves().len() implies self.box_of().contains(
                    (#[trigger] self.leaves()[i]).bounds(),
                ) by {
                    if i < xs.len() {
                        assert(self.leaves()[i] == xs[i]);
                        containment_is_transitive(bbox, left.box_of(), xs[i].bounds());
                    } else {
                        assert(self.leaves()[i] == ys[i - xs.len()]);
                        containment_is_transitive(bbox, right.box_of(), ys[i - xs.len()].bounds());
                    }
                }
            },
        }
    }

    /// The bounding invariant of construction: whatever `new` builds from
    /// shapes with ordered boxes, the box of every branch contains the boxes
    /// of its two children, and the box of the whole contains the box of
    /// every one of the shapes.
    pub proof fn built_boxes_nest(self, source_objects: Seq<H>)
        requires
            self.well_formed(),
            self.leaves().to_multiset() == source_objects.to_multiset(),
            forall|i: int|
                0 <= i < source_objects.len() ==> (#[trigger] source_objects[i]).bounds().is_ordered(),
        ensures
            self.nested(),
            self.box_of().is_ordered(),
            forall|i: int|
                0 <= i < source_objects.len() ==> self.box_of().contains(
                    (#[trigger] source_objects[i]).bounds(),
                ),
    {
        assert forall|i: int| 0 <= i < self.leaves().len() implies (#[trigger] self.leaves()[i]).bounds().is_ordered() by {
            let k = same_elements_share_members(self.leaves(), source_objects, i);
        }
        self.boxes_nest();
        assert forall|i: int| 0 <= i < source_objects.len() implies self.box_of().contains(
            (#[trigger] source_objects[i]).bounds(),
        ) by {
            let k = same_elements_share_members(source_objects, self.leaves(), i);
        }
    }

    /// Every well-formed hierarchy has a box.
    pub proof fn a_well_formed_tree_is_bounded(self)
        requires
            self.well_formed(),
        ensures
            self.is_bounded(),
    {
    }
}

impl<H: Hittable> Hittable for BvhNode<H> {
    type Material = H::Material;

    open spec fn hit_spec(&self, ray: Ray, t_min: Scalar, t_max: Scalar) -> Option<
        HitRecord<'_, Self::Material>,
    > {
        self.traverse(ray, t_min, t_max)
    }

    open spec fn is_bounded(&self) -> bool {
        match self {
            BvhNode::Leaf(shape) => shape.is_bounded(),
            BvhNode::Branch { left, right, bbox } => true,
        }
    }

    open spec fn bounds(&self) -> Aabb {
        self.box_of()
    }

    open spec fn slabs_spec(bbox: Aabb, ray: Ray) -> Slabs {
        H::slabs_spec(bbox, ray)
    }

    /// Tests the ray against the hierarchy, skipping every subtree whose box
    /// the ray misses.
    fn hit<'a>(&'a self, ray: &Ray, t_min: Scalar, t_max: Scalar) -> (found: Option<
        HitRecord<'a, Self::Material>,
    >)
        decreases self,
    {
        match self {
            BvhNode::Leaf(shape) => shape.hit(ray, t_min, t_max),
            BvhNode::Branch { left, right, bbox } => {
                if !bbox.hit::<H>(ray, t_min, t_max) {
                    return None;
                }
                let result = left.hit(ray, t_min, t_max);
                let new_t_max = match &result {
                    Some(record) => record.t,
                    None => t_max,
                };
                match right.hit(ray, t_min, new_t_max) {
                    Some(record) => Some(record),
                    None => result,
                }
            },
        }
    }

    /// The box around everything in the hierarchy.
    fn bounding_box(&self) -> (bbox: Aabb) {
        match self {
            BvhNode::Leaf(shape) => shape.bounding_box(),
            BvhNode::Branch { left, right, bbox } => *bbox,
        }
    }

    fn slabs(bbox: &Aabb, ray: &Ray) -> (slabs: Slabs) {
        H::slabs(bbox, ray)
    }
}

} // verus!
