//! A line of text.
use crate::predefined::{fitted, fitted_matrix};
use crate::rational::Rational;
use crate::shape::{Shape, ShapeModel};
use crate::transform::Mat3;
use crate::{Alignment, Event, EventOutcome, Layout, LayoutModel, Widget};
use vstd::prelude::*;

verus! {

/// How much taller a box of the given ratio of height to width is than a
/// line of `length` bytes needs: a line is taken to be as many times wider
/// than tall as it has bytes.
pub open spec fn line_slack(length: nat, height_per_width: real) -> real {
    height_per_width * length as real
}

/// The transform of a line of `length` bytes in a box of the given ratio of
/// height to width.
pub open spec fn line_transform(length: nat, height_per_width: real, alignment: Alignment) -> Mat3 {
    let slack = line_slack(length, height_per_width);
    if 1real < slack {
        fitted(true, 1real / slack, alignment)
    } else {
        fitted(false, slack, alignment)
    }
}

/// A widget that shows a line of text.
pub struct Label {
    text: String,
    needs_refresh: bool,
}

impl Label {
    /// The text of the label.
    pub closed spec fn text(&self) -> Seq<char> {
        self.text@
    }

    /// The number of bytes of the text, in UTF-8.
    pub open spec fn length(&self) -> nat {
        (vstd::utf8::encode_utf8(self.text()).len() as usize) as nat
    }

    /// Whether the text was changed since the label was last asked whether
    /// it needs a rebuild.
    pub closed spec fn refresh_pending(&self) -> bool {
        self.needs_refresh
    }

    /// The label once it was asked whether it needs a rebuild.
    pub closed spec fn settled(&self) -> Label {
        Label { text: self.text, needs_refresh: false }
    }

    /// Asking the label changes nothing but what it answers next.
    pub proof fn lemma_settled(&self)
        ensures
            self.settled().text() == self.text(),
            !self.settled().refresh_pending(),
            !self.refresh_pending() ==> self.settled() == *self,
    {
    }

    /// Initializes a new label.
    pub fn new(text: &str) -> (label: Label)
        ensures
            label.text() == text@,
            !label.refresh_pending(),
    {
        Label { text: text.to_owned(), needs_refresh: false }
    }

    /// Changes the text; the label then needs a rebuild.
    pub fn set_text(&mut self, text: &str)
        ensures
            final(self).text() == text@,
            final(self).refresh_pending(),
    {
        self.text = text.to_owned();
        self.needs_refresh = true;
    }
}

impl Widget for Label {
    open spec fn layout(&self, height_per_width: real, alignment: Alignment) -> LayoutModel {
        LayoutModel::Shapes(
            seq![
                ShapeModel::Text {
                    matrix: line_transform(self.length(), height_per_width, alignment),
                    text: self.text(),
                },
            ],
        )
    }

    fn build_layout(&self, height_per_width: &Rational, alignment: Alignment) -> (l: Layout) {
        let length = self.text.as_str().len();
        let slack = height_per_width.mul(&Rational::from_u64(length as u64));
        let matrix = if Rational::one().lt(&slack) {
            fitted_matrix(true, slack.recip(), alignment)
        } else {
            fitted_matrix(false, slack, alignment)
        };
        let shape = Shape::Text { matrix: matrix, text: self.text.clone() };
        let mut shapes: Vec<Shape> = Vec::new();
        shapes.push(shape);
        let l = Layout::Shapes(shapes);
        proof {
            assert(l@->Shapes_0 =~= self.layout(height_per_width@, alignment)->Shapes_0);
        }
        l
    }

    open spec fn stale(&self) -> bool {
        self.refresh_pending()
    }

    open spec fn polled(&self) -> Label {
        self.settled()
    }

    fn needs_rebuild(&mut self) -> (stale: bool)
        ensures
            final(self).text() == old(self).text(),
            !final(self).refresh_pending(),
    {
        let stale = self.needs_refresh;
        self.needs_refresh = false;
        stale
    }

    fn handle_event(&mut self, event: &Event, source_child: Option<usize>) -> (outcome:
        EventOutcome) {
        Default::default()
    }
}

} // verus!
