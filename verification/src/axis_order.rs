//! The order of boxes along an axis.

use vstd::prelude::*;
use std::cmp::Ordering;
use crate::aabb::Aabb;

verus! {

impl Aabb {
    /// Compares the minimum corners of two boxes on one axis, in the total
    /// order of the doubles: negative zero comes before positive zero, and
    /// a NaN comes before or after every number, by its sign.
    pub fn compare_axis(&self, other: &Aabb, axis: usize) -> (order: Ordering)
        requires
            axis < 3,
        ensures
            match order {
                Ordering::Less => self.minimum.along(axis)@ < other.minimum.along(axis)@,
                Ordering::Equal => self.minimum.along(axis)@ == other.minimum.along(axis)@,
                Ordering::Greater => self.minimum.along(axis)@ > other.minimum.along(axis)@,
            },
    {
        let mine = self.minimum.axis(axis);
        let theirs = other.minimum.axis(axis);
        if mine.precedes(&theirs) {
            Ordering::Less
        } else if theirs.precedes(&mine) {
            Ordering::Greater
        } else {
            Ordering::Equal
        }
    }
}

} // verus!
