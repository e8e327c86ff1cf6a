//! Affine maps of space as matrices of four rows and four columns.

use vstd::prelude::*;
use crate::scalar::{Scalar, negated_key, ONE_KEY};
use crate::vec3::Vec3;

verus! {

/// A matrix of four rows and four columns; the last row of an affine map is
/// `0 0 0 1`.
#[derive(Debug, Clone, Copy)]
pub struct Matrix4x4 {
    pub rows: [[Scalar; 4]; 4],
}

impl Matrix4x4 {
    /// The entry in a row and a column.
    pub open spec fn entry(self, row: int, column: int) -> Scalar {
        self.rows@[row]@[column]
    }

    /// The matrix whose diagonal holds `x`, `y`, `z` and one, and whose
    /// last column holds `shift` above the one; every other entry is zero.
    pub open spec fn is_scale_and_shift(self, x: Scalar, y: Scalar, z: Scalar, shift: Vec3) -> bool {
        &&& self.entry(0, 0) == x && self.entry(0, 1)@ == 0 && self.entry(0, 2)@ == 0
            && self.entry(0, 3) == shift.x
        &&& self.entry(1, 0)@ == 0 && self.entry(1, 1) == y && self.entry(1, 2)@ == 0
            && self.entry(1, 3) == shift.y
        &&& self.entry(2, 0)@ == 0 && self.entry(2, 1)@ == 0 && self.entry(2, 2) == z
            && self.entry(2, 3) == shift.z
        &&& self.entry(3, 0)@ == 0 && self.entry(3, 1)@ == 0 && self.entry(3, 2)@ == 0
            && self.entry(3, 3)@ == ONE_KEY
    }

    /// The map that scales by one factor along every axis.
    pub fn new_scale_matrix_all_directions(scale: Scalar) -> (matrix: Matrix4x4)
        ensures
            matrix.is_scale_and_shift(scale, scale, scale, Vec3::origin()),
    {
        Matrix4x4::new_scale_matrix(scale, scale, scale)
    }

    /// The map that scales by a factor of its own along each axis.
    pub fn new_scale_matrix(scale_x: Scalar, scale_y: Scalar, scale_z: Scalar) -> (matrix:
        Matrix4x4)
        ensures
            matrix.is_scale_and_shift(scale_x, scale_y, scale_z, Vec3::origin()),
    {
        let zero = Scalar::zero();
        Matrix4x4 {
            rows: [
                [scale_x, zero, zero, zero],
                [zero, scale_y, zero, zero],
                [zero, zero, scale_z, zero],
                [zero, zero, zero, Scalar::one()],
            ],
        }
    }

    /// The map that leaves every point where it is.
    pub fn new_identity_matrix() -> (matrix: Matrix4x4)
        ensures
            matrix.is_scale_and_shift(
                Scalar { key: ONE_KEY },
                Scalar { key: ONE_KEY },
                Scalar { key: ONE_KEY },
                Vec3::origin(),
            ),
    {
        let one = Scalar::one();
        Matrix4x4::new_scale_matrix(one, one, one)
    }

    /// The map that moves every point by `translation`.
    pub fn new_translation_matrix(translation: Vec3) -> (matrix: Matrix4x4)
        ensures
            matrix.is_scale_and_shift(
                Scalar { key: ONE_KEY },
                Scalar { key: ONE_KEY },
                Scalar { key: ONE_KEY },
                translation,
            ),
    {
        let zero = Scalar::zero();
        let one = Scalar::one();
        Matrix4x4 {
            rows: [
                [one, zero, zero, translation.x],
                [zero, one, zero, translation.y],
                [zero, zero, one, translation.z],
                [zero, zero, zero, one],
            ],
        }
    }

    /// The map that turns space about the x axis, by the cosine and the
    /// sine of the angle.
    pub fn new_rotation_x_matrix(cosine: Scalar, sine: Scalar) -> (matrix: Matrix4x4)
        ensures
            matrix.entry(0, 0)@ == ONE_KEY && matrix.entry(0, 1)@ == 0 && matrix.entry(0, 2)@ == 0
                && matrix.entry(0, 3)@ == 0,
            matrix.entry(1, 0)@ == 0 && matrix.entry(1, 1) == cosine && matrix.entry(1, 2) == sine
                && matrix.entry(1, 3)@ == 0,
            matrix.entry(2, 0)@ == 0 && matrix.entry(2, 1)@ == negated_key(sine@) && matrix.entry(
                2,
                2,
            ) == cosine && matrix.entry(2, 3)@ == 0,
            matrix.entry(3, 0)@ == 0 && matrix.entry(3, 1)@ == 0 && matrix.entry(3, 2)@ == 0
                && matrix.entry(3, 3)@ == ONE_KEY,
    {
        let zero = Scalar::zero();
        let one = Scalar::one();
        Matrix4x4 {
            rows: [
                [one, zero, zero, zero],
                [zero, cosine, sine, zero],
                [zero, sine.neg(), cosine, zero],
                [zero, zero, zero, one],
            ],
        }
    }

    /// The map that turns space about the y axis, by the cosine and the
    /// sine of the angle.
    pub fn new_rotation_y_matrix(cosine: Scalar, sine: Scalar) -> (matrix: Matrix4x4)
        ensures
            matrix.entry(0, 0) == cosine && matrix.entry(0, 1)@ == 0 && matrix.entry(0, 2)@
                == negated_key(sine@) && matrix.entry(0, 3)@ == 0,
            matrix.entry(1, 0)@ == 0 && matrix.entry(1, 1)@ == ONE_KEY && matrix.entry(1, 2)@ == 0
                && matrix.entry(1, 3)@ == 0,
            matrix.entry(2, 0) == sine && matrix.entry(2, 1)@ == 0 && matrix.entry(2, 2) == cosine
                && matrix.entry(2, 3)@ == 0,
            matrix.entry(3, 0)@ == 0 && matrix.entry(3, 1)@ == 0 && matrix.entry(3, 2)@ == 0
                && matrix.entry(3, 3)@ == ONE_KEY,
    {
        let zero = Scalar::zero();
        let one = Scalar::one();
        Matrix4x4 {
            rows: [
                [cosine, zero, sine.neg(), zero],
                [zero, one, zero, zero],
                [sine, zero, cosine, zero],
                [zero, zero, zero, one],
            ],
        }
    }

    /// The map that turns space about the z axis, by the cosine and the
    /// sine of the angle.
    pub fn new_rotation_z_matrix(cosine: Scalar, sine: Scalar) -> (matrix: Matrix4x4)
        ensures
            matrix.entry(0, 0) == cosine && matrix.entry(0, 1)@ == negated_key(sine@)
                && matrix.entry(0, 2)@ == 0 && matrix.entry(0, 3)@ == 0,
            matrix.entry(1, 0) == sine && matrix.entry(1, 1) == cosine && matrix.entry(1, 2)@ == 0
                && matrix.entry(1, 3)@ == 0,
            matrix.entry(2, 0)@ == 0 && matrix.entry(2, 1)@ == 0 && matrix.entry(2, 2)@ == ONE_KEY
                && matrix.entry(2, 3)@ == 0,
            matrix.entry(3, 0)@ == 0 && matrix.entry(3, 1)@ == 0 && matrix.entry(3, 2)@ == 0
                && matrix.entry(3, 3)@ == ONE_KEY,
    {
        let zero = Scalar::zero();
        let one = Scalar::one();
        Matrix4x4 {
            rows: [
                [cosine, sine.neg(), zero, zero],
                [sine, cosine, zero, zero],
                [zero, zero, one, zero],
                [zero, zero, zero, one],
            ],
        }
    }
}

} // verus!
