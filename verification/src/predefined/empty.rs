//! The widget that shows nothing.
use crate::rational::Rational;
use crate::{Alignment, Event, EventOutcome, Layout, LayoutModel, Widget};
use vstd::prelude::*;

verus! {

/// An empty widget.
pub struct Empty;

impl Empty {
    /// Builds an `Empty`.
    pub fn new() -> (e: Empty)
        ensures
            e == Empty,
    {
        Empty
    }
}

impl Widget for Empty {
    open spec fn layout(&self, height_per_width: real, alignment: Alignment) -> LayoutModel {
        LayoutModel::Shapes(Seq::empty())
    }

    fn build_layout(&self, height_per_width: &Rational, alignment: Alignment) -> (l: Layout) {
        let l = Layout::Shapes(Vec::new());
        assert(l@->Shapes_0 =~= Seq::empty());
        l
    }

    fn needs_rebuild(&mut self) -> (stale: bool) {
        false
    }

    fn handle_event(&mut self, event: &Event, source_child: Option<usize>) -> (outcome:
        EventOutcome) {
        Default::default()
    }
}

} // verus!
