//! A retained-mode layout and event-dispatch engine for widget hierarchies.
//!
//! # How to use it
//!
//! ## Step 1: keep the state of the user interface in a vector of widgets.
//!
//! The first widget is the root. Every widget names its children by their
//! index in the vector, and a child is stored behind every widget that names
//! it. So no widget can contain itself, while one widget may well appear in
//! several places.
//!
//! ## Step 2: implement the `Widget` trait on the type of the widgets.
//!
//! `build_layout` tells the engine what a widget shows: shapes of its own,
//! children that it places itself, or a bar of children that share its width
//! or its height by their weights.
//!
//! ## Step 3: create a `Ui` and pass the widgets to it.
//!
//! The engine builds a second hierarchy, the tree of nodes, which holds the
//! position and the scale of each element as a transform. At any moment
//! `draw` returns the list of things to draw, from bottom to top. The tree is
//! rebuilt as a whole whenever a widget or a node asks for it; it is never
//! patched.
//!
//! ## Step 4: send the cursor to the `Ui`.
//!
//! Whenever the cursor moves or the button changes, call `set_cursor`. The
//! engine finds the shapes under the cursor and tells their widgets, the
//! children before their parents.
//!
//! # Numbers
//!
//! All numbers are exact rationals of arbitrary size: no result is rounded,
//! nothing overflows, and the laws of arithmetic hold of every layout. The
//! contracts speak of the real numbers that these values denote.
use vstd::prelude::*;

pub mod natural;
pub mod rational;
pub mod transform;
pub mod matrix;
pub mod shape;
pub mod bar;
pub mod widgets;
pub mod node;
pub mod resolve;
pub mod draw;
pub mod dispatch;
pub mod ui;
pub mod laws;
pub mod packing;
pub mod predefined;

pub use crate::matrix::Matrix;
pub use crate::rational::Rational;
pub use crate::shape::Shape;
pub use crate::ui::Ui;
pub use crate::widgets::Widgets;

use crate::predefined::{MouseClick, MouseEnterEvent, MouseLeaveEvent};
use crate::shape::ShapeModel;
use crate::transform::Mat3;

verus! {

/// An event that travels through the tree of widgets.
#[derive(Copy, Clone, Debug, PartialEq, Eq, Structural)]
pub enum Event {
    MouseEnter(MouseEnterEvent),
    MouseLeave(MouseLeaveEvent),
    MouseClick(MouseClick),
    /// An event of the application's own, told apart by its number.
    Custom(u64),
}

/// Structure returned by `handle_event`, indicating information back to the library.
#[derive(Debug)]
pub struct EventOutcome {
    /// If `true`, the element's layout will be refreshed before the next draw. Default is `false`.
    pub refresh_layout: bool,
    /// If `true`, the event will be sent to the parent element. Default is `true`.
    pub propagate_to_parent: bool,
    /// Further events for the parent element, delivered before the event itself. Default is none.
    pub events_for_parent: Vec<Event>,
}

/// The mathematical content of an `EventOutcome`.
pub struct EventOutcomeModel {
    pub refresh_layout: bool,
    pub propagate_to_parent: bool,
    pub events_for_parent: Seq<Event>,
}

impl EventOutcomeModel {
    /// The outcome of a widget that does not react: nothing to refresh, and
    /// the event goes on to the parent.
    pub open spec fn ignored() -> EventOutcomeModel {
        EventOutcomeModel {
            refresh_layout: false,
            propagate_to_parent: true,
            events_for_parent: Seq::empty(),
        }
    }
}

impl View for EventOutcome {
    type V = EventOutcomeModel;

    open spec fn view(&self) -> EventOutcomeModel {
        EventOutcomeModel {
            refresh_layout: self.refresh_layout,
            propagate_to_parent: self.propagate_to_parent,
            events_for_parent: self.events_for_parent@,
        }
    }
}

impl Clone for EventOutcome {
    fn clone(&self) -> (o: EventOutcome)
        ensures
            o@ == self@,
    {
        let events_for_parent = self.events_for_parent.clone();
        assert(events_for_parent@ =~= self.events_for_parent@);
        EventOutcome {
            refresh_layout: self.refresh_layout,
            propagate_to_parent: self.propagate_to_parent,
            events_for_parent: events_for_parent,
        }
    }
}

impl Default for EventOutcome {
    fn default() -> (o: EventOutcome)
        ensures
            o@ == EventOutcomeModel::ignored(),
    {
        EventOutcome {
            refresh_layout: false,
            propagate_to_parent: true,
            events_for_parent: Vec::new(),
        }
    }
}

#[derive(Copy, Clone, Debug, PartialEq, Eq, Structural)]
pub enum HorizontalAlignment {
    Center,
    Left,
    Right,
}

impl Default for HorizontalAlignment {
    fn default() -> (a: HorizontalAlignment)
        ensures
            a == HorizontalAlignment::Center,
    {
        HorizontalAlignment::Center
    }
}

#[derive(Copy, Clone, Debug, PartialEq, Eq, Structural)]
pub enum VerticalAlignment {
    Center,
    Top,
    Bottom,
}

impl Default for VerticalAlignment {
    fn default() -> (a: VerticalAlignment)
        ensures
            a == VerticalAlignment::Center,
    {
        VerticalAlignment::Center
    }
}

#[derive(Copy, Clone, Debug, PartialEq, Eq, Structural)]
pub struct Alignment {
    pub horizontal: HorizontalAlignment,
    pub vertical: VerticalAlignment,
}

impl Alignment {
    /// Centered on both axes.
    pub open spec fn centered() -> Alignment {
        Alignment { horizontal: HorizontalAlignment::Center, vertical: VerticalAlignment::Center }
    }
}

impl Default for Alignment {
    fn default() -> (a: Alignment)
        ensures
            a == Alignment::centered(),
    {
        Alignment { horizontal: HorizontalAlignment::Center, vertical: VerticalAlignment::Center }
    }
}

/// One child of a bar.
pub struct Child {
    /// The index of the child widget among the widgets of the application.
    pub child: usize,
    /// The share of the bar that the child takes, relative to the other
    /// children. At least one.
    pub weight: i8,
    pub alignment: Alignment,
    /// Whether the empty space around the child's content is removed.
    pub collapse: bool,
    pub padding_top: Rational,
    pub padding_right: Rational,
    pub padding_bottom: Rational,
    pub padding_left: Rational,
}

/// The mathematical content of a `Child`.
pub struct ChildModel {
    pub child: usize,
    pub weight: i8,
    pub alignment: Alignment,
    pub collapse: bool,
    pub padding_top: real,
    pub padding_right: real,
    pub padding_bottom: real,
    pub padding_left: real,
}

impl View for Child {
    type V = ChildModel;

    open spec fn view(&self) -> ChildModel {
        ChildModel {
            child: self.child,
            weight: self.weight,
            alignment: self.alignment,
            collapse: self.collapse,
            padding_top: self.padding_top@,
            padding_right: self.padding_right@,
            padding_bottom: self.padding_bottom@,
            padding_left: self.padding_left@,
        }
    }
}

/// How a widget wants its content arranged.
#[allow(inconsistent_fields)]
pub enum Layout {
    /// Each child is placed by the given transform, relative to this widget.
    AbsolutePositionned(Vec<(Matrix, usize)>),
    /// The content of the widget will be split in parts whose size depend on the weight of each
    /// child. Then the white spaces to the left and right of each child whose `collapse` value is
    /// `true` will be removed. The `alignment` is taken into account in order to align the
    /// elements once the children have been collapsed.
    HorizontalBar {
        /// How the children should be aligned once white spaces have been collapsed.
        alignment: HorizontalAlignment,
        /// List of children.
        children: Vec<Child>,
    },
    /// The same as `HorizontalBar`, but vertical.
    VerticalBar {
        /// How the children should be aligned once white spaces have been collapsed.
        alignment: VerticalAlignment,
        /// List of children.
        children: Vec<Child>,
    },
    /// The widget has no children and draws these shapes.
    Shapes(Vec<Shape>),
}

/// The mathematical content of a `Layout`.
#[allow(inconsistent_fields)]
pub enum LayoutModel {
    AbsolutePositionned(Seq<(Mat3, usize)>),
    HorizontalBar { alignment: HorizontalAlignment, children: Seq<ChildModel> },
    VerticalBar { alignment: VerticalAlignment, children: Seq<ChildModel> },
    Shapes(Seq<ShapeModel>),
}

/// The views of the children of a bar.
pub open spec fn children_view(children: Seq<Child>) -> Seq<ChildModel> {
    Seq::new(children.len(), |i: int| children[i]@)
}

/// The views of a list of shapes.
pub open spec fn shapes_view(shapes: Seq<Shape>) -> Seq<ShapeModel> {
    Seq::new(shapes.len(), |i: int| shapes[i]@)
}

/// The views of a list of placed children.
pub open spec fn placed_view(list: Seq<(Matrix, usize)>) -> Seq<(Mat3, usize)> {
    Seq::new(list.len(), |i: int| (list[i].0@, list[i].1))
}

impl View for Layout {
    type V = LayoutModel;

    open spec fn view(&self) -> LayoutModel {
        match self {
            Layout::AbsolutePositionned(list) => LayoutModel::AbsolutePositionned(
                placed_view(list@),
            ),
            Layout::HorizontalBar { alignment, children } => LayoutModel::HorizontalBar {
                alignment: *alignment,
                children: children_view(children@),
            },
            Layout::VerticalBar { alignment, children } => LayoutModel::VerticalBar {
                alignment: *alignment,
                children: children_view(children@),
            },
            Layout::Shapes(shapes) => LayoutModel::Shapes(shapes_view(shapes@)),
        }
    }
}

/// Why the widgets could not be resolved into a tree.
#[derive(Copy, Clone, Debug, PartialEq, Eq, Structural)]
pub enum LayoutError {
    /// A layout names a child that is not stored behind the widget that
    /// names it, or there is no widget at all.
    MisplacedChild,
    /// A child of a bar has a weight below one.
    WeightBelowOne,
}

/// Implement this on types that contain the state of a widget.
///
/// Each method comes with a function of the same widget that says, in
/// mathematical terms, what the method returns and how it changes the widget.
/// An implementation that is verified with the library defines these
/// functions and is held to them. Where an implementation leaves one out, the
/// function is unspecified for `layout`, and says "nothing happens" for the
/// others.
pub trait Widget: Sized {
    /// What `build_layout` returns.
    open spec fn layout(&self, height_per_width: real, alignment: Alignment) -> LayoutModel {
        arbitrary()
    }

    /// Returns a structure indicating the content of this widget.
    ///
    /// The `height_per_width` contains the ratio of the height of the widget divided by its width.
    /// The `alignment` is just an indication passed by the parent.
    fn build_layout(&self, height_per_width: &Rational, alignment: Alignment) -> (l: Layout)
        ensures
            l@ == self.layout(height_per_width@, alignment),
    ;

    /// What `needs_rebuild` returns.
    open spec fn stale(&self) -> bool {
        false
    }

    /// The widget after `needs_rebuild` was called.
    open spec fn polled(&self) -> Self {
        *self
    }

    /// This method is called before drawing. It should return `true` if the layout of this element
    /// should be rebuilt. A widget whose content only changes through events returns `false`.
    ///
    /// This method is useful when dealing with animation. As long as the widget's content is
    /// moving, you should return `true`.
    fn needs_rebuild(&mut self) -> (stale: bool)
        ensures
            stale == old(self).stale(),
            *final(self) == old(self).polled(),
    ;

    /// What `handle_event` returns.
    open spec fn outcome(&self, event: Event, source_child: Option<usize>) -> EventOutcomeModel {
        EventOutcomeModel::ignored()
    }

    /// The widget after `handle_event` was called.
    open spec fn handled(&self, event: Event, source_child: Option<usize>) -> Self {
        *self
    }

    /// The widget received an event. It can update itself, then it should return an `EventOutcome`
    /// indicating the library what to do next. A widget that does not react returns
    /// `Default::default()`.
    ///
    /// The event can be:
    ///
    /// * `predefined::MouseEnterEvent`
    /// * `predefined::MouseLeaveEvent`
    /// * `predefined::MouseClick`
    /// * Any other event produced by another widget.
    ///
    /// `source_child` is the position, among the children of this widget, of
    /// the child that passed the event on, or `None` where the event is meant
    /// for this widget itself.
    fn handle_event(&mut self, event: &Event, source_child: Option<usize>) -> (outcome: EventOutcome)
        ensures
            outcome@ == old(self).outcome(*event, source_child),
            *final(self) == old(self).handled(*event, source_child),
    ;
}

} // verus!
