//! A picture that keeps its proportions.
use crate::predefined::{fitted, fitted_matrix};
use crate::rational::{quotient_or_zero, Rational};
use crate::shape::{Shape, ShapeModel};
use crate::transform::Mat3;
use crate::{Alignment, Event, EventOutcome, Layout, LayoutModel, Widget};
use vstd::prelude::*;

verus! {

/// The transform of a picture whose ratio of height to width is `own` in a
/// box whose ratio is `height_per_width`. A quotient by zero is taken as
/// zero.
pub open spec fn picture_transform(own: real, height_per_width: real, alignment: Alignment) -> Mat3 {
    if own < height_per_width {
        fitted(true, quotient_or_zero(own, height_per_width), alignment)
    } else {
        fitted(false, quotient_or_zero(height_per_width, own), alignment)
    }
}

/// A widget that shows a picture, by the name of the picture.
pub struct Image {
    name: String,
    height_per_width: Rational,
}

impl Image {
    /// The name of the picture.
    pub closed spec fn name(&self) -> Seq<char> {
        self.name@
    }

    /// The ratio of height to width of the picture.
    pub closed spec fn ratio(&self) -> real {
        self.height_per_width@
    }

    /// Builds an image.
    ///
    /// The parameter `height_per_width` is the height per width ratio of the image. This ratio
    /// will be enforced when drawing.
    pub fn new(name: &str, height_per_width: Rational) -> (image: Image)
        ensures
            image.name() == name@,
            image.ratio() == height_per_width@,
    {
        Image { name: name.to_owned(), height_per_width: height_per_width }
    }

    /// Changes the picture that is shown.
    pub fn set_name(&mut self, name: &str)
        ensures
            final(self).name() == name@,
            final(self).ratio() == old(self).ratio(),
    {
        self.name = name.to_owned();
    }
}

impl Widget for Image {
    open spec fn layout(&self, height_per_width: real, alignment: Alignment) -> LayoutModel {
        LayoutModel::Shapes(
            seq![
                ShapeModel::Image {
                    matrix: picture_transform(self.ratio(), height_per_width, alignment),
                    name: self.name(),
                },
            ],
        )
    }

    fn build_layout(&self, height_per_width: &Rational, alignment: Alignment) -> (l: Layout) {
        let matrix = if self.height_per_width.lt(height_per_width) {
            fitted_matrix(true, self.height_per_width.div_or_zero(height_per_width), alignment)
        } else {
            fitted_matrix(false, height_per_width.div_or_zero(&self.height_per_width), alignment)
        };
        let shape = Shape::Image { matrix: matrix, name: self.name.clone() };
        let mut shapes: Vec<Shape> = Vec::new();
        shapes.push(shape);
        let l = Layout::Shapes(shapes);
        proof {
            assert(l@->Shapes_0 =~= self.layout(height_per_width@, alignment)->Shapes_0);
        }
        l
    }

    fn needs_rebuild(&mut self) -> (stale: bool) {
        false
    }

    fn handle_event(&mut self, event: &Event, source_child: Option<usize>) -> (outcome:
        EventOutcome) {
        Default::default()
    }
}

} // verus!
