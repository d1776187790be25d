//! A frame made of a corner, a border and a background picture.
use crate::matrix::Matrix;
use crate::rational::{quotient_or_zero, Rational};
use crate::transform::Mat3;
use vstd::prelude::*;

verus! {

/// The scale of a corner of the frame in a box of the given ratio of height
/// to width: the border keeps its width in a box that is wider than tall, and
/// its height in one that is taller than wide. A quotient by zero is taken as
/// zero.
pub open spec fn corner_scale(border_width: real, border_height: real, height_per_width: real) -> Mat3 {
    if 1real < height_per_width {
        Mat3::scale_wh(height_per_width * border_width, border_height)
    } else {
        Mat3::scale_wh(border_width, quotient_or_zero(border_height, height_per_width))
    }
}

/// The pictures and the border of a frame. It reports no layout yet.
pub struct NineSliceImage {
    corner_image: String,
    border_image: String,
    background_image: String,
    border_width: Rational,
    border_height: Rational,
}

impl NineSliceImage {
    /// The names of the pictures of the corner, of the border and of the
    /// background.
    pub closed spec fn pictures(&self) -> (Seq<char>, Seq<char>, Seq<char>) {
        (self.corner_image@, self.border_image@, self.background_image@)
    }

    /// The width and the height of the border.
    pub closed spec fn border(&self) -> (real, real) {
        (self.border_width@, self.border_height@)
    }

    /// Builds a frame from the names of its three pictures and the size of
    /// its border.
    pub fn new(
        corner_image: &str,
        border_image: &str,
        background_image: &str,
        border_width: Rational,
        border_height: Rational,
    ) -> (frame: NineSliceImage)
        ensures
            frame.pictures() == (corner_image@, border_image@, background_image@),
            frame.border() == (border_width@, border_height@),
    {
        NineSliceImage {
            corner_image: corner_image.to_owned(),
            border_image: border_image.to_owned(),
            background_image: background_image.to_owned(),
            border_width: border_width,
            border_height: border_height,
        }
    }

    /// The scale of a corner of the frame in a box of the given ratio of
    /// height to width.
    pub fn corner_matrix(&self, height_per_width: &Rational) -> (m: Matrix)
        ensures
            m@ == corner_scale(self.border().0, self.border().1, height_per_width@),
    {
        if Rational::one().lt(height_per_width) {
            Matrix::scale_wh(height_per_width.mul(&self.border_width), self.border_height.clone())
        } else {
            Matrix::scale_wh(
                self.border_width.clone(),
                self.border_height.div_or_zero(height_per_width),
            )
        }
    }
}

} // verus!
