//! Widgets and events that the library brings with it.
use crate::matrix::Matrix;
use crate::rational::Rational;
use crate::transform::Mat3;
use crate::{Alignment, HorizontalAlignment, VerticalAlignment};
use vstd::prelude::*;

pub mod empty;
pub mod image;
pub mod image_button;
pub mod label;
pub mod nine_slice_image;
pub mod transition;

pub use self::empty::Empty;
pub use self::image::Image;
pub use self::image_button::ImageButton;
pub use self::label::Label;
pub use self::nine_slice_image::NineSliceImage;
pub use self::transition::Transition;

verus! {

/// The cursor is over one of the shapes of the widget.
#[derive(Copy, Clone, Debug, PartialEq, Eq, Structural)]
pub struct MouseEnterEvent;

/// The cursor is over none of the shapes of the widget.
#[derive(Copy, Clone, Debug, PartialEq, Eq, Structural)]
pub struct MouseLeaveEvent;

/// The button was released while the cursor was over a shape of the widget.
#[derive(Copy, Clone, Debug, PartialEq, Eq, Structural)]
pub struct MouseClick;

/// The transform of content that keeps its own proportions in a box of other
/// proportions. Where the box is too tall, the content takes the whole width
/// and the part `factor` of the height, and sits where the vertical
/// alignment says; else it takes the whole height and the part `factor` of
/// the width, and sits where the horizontal alignment says.
pub open spec fn fitted(tall: bool, factor: real, alignment: Alignment) -> Mat3 {
    if tall {
        Mat3::translate(
            0real,
            match alignment.vertical {
                VerticalAlignment::Center => 0real,
                VerticalAlignment::Top => 1real - factor,
                VerticalAlignment::Bottom => -1real + factor,
            },
        ).mul(Mat3::scale_wh(1real, factor))
    } else {
        Mat3::translate(
            match alignment.horizontal {
                HorizontalAlignment::Center => 0real,
                HorizontalAlignment::Left => -1real + factor,
                HorizontalAlignment::Right => 1real - factor,
            },
            0real,
        ).mul(Mat3::scale_wh(factor, 1real))
    }
}

/// The transform of content that keeps its own proportions in a box of other
/// proportions.
pub fn fitted_matrix(tall: bool, factor: Rational, alignment: Alignment) -> (m: Matrix)
    ensures
        m@ == fitted(tall, factor@, alignment),
{
    if tall {
        let y = match alignment.vertical {
            VerticalAlignment::Center => Rational::zero(),
            VerticalAlignment::Top => Rational::one().sub(&factor),
            VerticalAlignment::Bottom => Rational::from_int(-1).add(&factor),
        };
        let scale = Matrix::scale_wh(Rational::one(), factor);
        let pos = Matrix::translate(Rational::zero(), y);
        pos.mul(&scale)
    } else {
        let x = match alignment.horizontal {
            HorizontalAlignment::Center => Rational::zero(),
            HorizontalAlignment::Left => Rational::from_int(-1).add(&factor),
            HorizontalAlignment::Right => Rational::one().sub(&factor),
        };
        let scale = Matrix::scale_wh(factor, Rational::one());
        let pos = Matrix::translate(x, Rational::zero());
        pos.mul(&scale)
    }
}

} // verus!
