//! Colour as a function of the place on a surface.

use vstd::prelude::*;
use crate::scalar::{Scalar, key_lt};
use crate::vec3::{Color, Vec3};

verus! {

/// A pattern: the colour at a pair of surface coordinates and a point in
/// space. The colour is a function of those three and of the texture.
pub trait Texture {
    /// The colour that the texture has at a place.
    spec fn value_spec(&self, u: Scalar, v: Scalar, point: Vec3) -> Color;

    /// Looks the colour up.
    fn value(&self, u: Scalar, v: Scalar, point: Vec3) -> (color: Color)
        ensures
            color == self.value_spec(u, v, point),
    ;
}

/// One colour everywhere.
pub struct SolidColorTexture {
    pub color: Color,
}

impl SolidColorTexture {
    /// The texture that is `color` at every place.
    pub fn new(color: Color) -> (texture: SolidColorTexture)
        ensures
            texture.color == color,
    {
        SolidColorTexture { color }
    }
}

impl Texture for SolidColorTexture {
    open spec fn value_spec(&self, u: Scalar, v: Scalar, point: Vec3) -> Color {
        self.color
    }

    fn value(&self, u: Scalar, v: Scalar, point: Vec3) -> (color: Color) {
        self.color
    }
}

/// A chequered pattern in space: two patterns that take turns from cell to
/// cell.
pub struct CheckerTexture<O, E> {
    pub odd: O,
    pub even: E,
}

impl<O: Texture, E: Texture> CheckerTexture<O, E> {
    /// The pattern that shows `odd` in the odd cells and `even` in the
    /// even ones.
    pub fn new(odd: O, even: E) -> (texture: CheckerTexture<O, E>)
        ensures
            texture.odd == odd,
            texture.even == even,
    {
        CheckerTexture { odd, even }
    }

    /// The colour at a place. `sines` is the product of the sines of ten
    /// times each coordinate of the point; where it is negative the cell is
    /// odd.
    pub fn value_by(&self, sines: Scalar, u: Scalar, v: Scalar, point: Vec3) -> (color: Color)
        ensures
            color == if key_lt(sines@, 0) {
                self.odd.value_spec(u, v, point)
            } else {
                self.even.value_spec(u, v, point)
            },
    {
        if sines.lt(&Scalar::zero()) {
            self.odd.value(u, v, point)
        } else {
            self.even.value(u, v, point)
        }
    }
}

} // verus!
