//! The engine as a whole: the widgets, the tree that was derived from them,
//! and the operations that an application calls.
use crate::dispatch::{cursor_view, scan, visit, with_flag};
use crate::draw::flatten;
use crate::matrix::Matrix;
use crate::node::{Node, NodeModel};
use crate::rational::Rational;
use crate::resolve::resolve;
use crate::shape::{Shape, ShapeModel};
use crate::transform::Mat3;
use crate::widgets::Widgets;
use crate::{
    shapes_view, Alignment, HorizontalAlignment, LayoutError, VerticalAlignment, Widget,
};
use vstd::prelude::*;

verus! {

/// The mathematical content of a `Ui`.
pub struct UiModel<W> {
    /// The ratio of height to width of the viewport.
    pub ratio: real,
    /// The widgets of the application. The first one is the root.
    pub widgets: Seq<W>,
    /// The tree that was derived from the widgets.
    pub tree: NodeModel,
    pub hovering: bool,
    /// Whether the button was held at the last sample of the cursor.
    pub mouse_down: bool,
}

/// The node that the root widget resolves to in the viewport.
pub open spec fn resolve_root<W: Widget>(ws: Seq<W>, ratio: real) -> Result<NodeModel, LayoutError> {
    resolve(ws, 0, ratio, Alignment::centered())
}

/// The engine after a rebuild, and whether the rebuild succeeded. A rebuild
/// that fails is not forgotten: the old tree stays, and its root asks for a
/// rebuild, so that the next `draw` tries again and fails again until the
/// widgets can be resolved.
pub open spec fn rebuilt<W: Widget>(ui: UiModel<W>) -> (UiModel<W>, Result<(), LayoutError>) {
    match resolve_root(ui.widgets, ui.ratio) {
        Ok(tree) => (UiModel { tree: tree, ..ui }, Ok(())),
        Err(e) => (UiModel { tree: with_flag(ui.tree, true), ..ui }, Err(e)),
    }
}

/// The engine after a call of `draw`, and what the call returns. The tree is
/// searched for something that needs a rebuild; if the search finds
/// something, the tree is rebuilt from the root; then the tree is flattened.
/// Where the rebuild fails, so does the call, and the tree is left asking
/// for a rebuild.
pub open spec fn drawn<W: Widget>(ui: UiModel<W>) -> (UiModel<W>, Result<Seq<ShapeModel>, LayoutError>) {
    let sweep = scan(ui.tree, ui.widgets);
    let searched = UiModel { tree: sweep.node, widgets: sweep.widgets, ..ui };
    if sweep.found {
        match rebuilt(searched) {
            (after, Ok(_)) => (after, Ok(flatten(after.tree))),
            (after, Err(e)) => (after, Err(e)),
        }
    } else {
        (searched, Ok(flatten(searched.tree)))
    }
}

/// The engine after the viewport was given a ratio of height to width:
/// unchanged where the ratio is the one it has, else rebuilt with the new
/// ratio.
pub open spec fn reshaped<W: Widget>(ui: UiModel<W>, value: real) -> (UiModel<W>, Result<(), LayoutError>) {
    if ui.ratio == value {
        (ui, Ok(()))
    } else {
        rebuilt(UiModel { ratio: value, ..ui })
    }
}

/// The engine after one sample of the cursor: the sample went through the
/// tree from the root, which the identity places in the viewport, and the
/// state of the button is remembered for the next sample.
pub open spec fn sampled<W: Widget>(ui: UiModel<W>, mouse: Option<crate::shape::Point>, down: bool) -> UiModel<W> {
    let after = visit(ui.tree, ui.widgets, mouse, Mat3::identity(), ui.mouse_down, down);
    UiModel { tree: after.node, widgets: after.widgets, mouse_down: down, ..ui }
}

/// Main struct of this library. Handles the UI as a whole.
pub struct Ui<W> {
    viewport_height_per_width: Rational,
    widgets: Widgets<W>,
    main_node: Node,
    hovering: bool,
    mouse_down: bool,
}

impl<W> View for Ui<W> {
    type V = UiModel<W>;

    closed spec fn view(&self) -> UiModel<W> {
        UiModel {
            ratio: self.viewport_height_per_width@,
            widgets: self.widgets@,
            tree: self.main_node@,
            hovering: self.hovering,
            mouse_down: self.mouse_down,
        }
    }
}

impl<W> Ui<W> {
    /// Every engine has a root widget.
    pub proof fn lemma_has_root(&self)
        ensures
            self@.widgets.len() > 0,
    {
        self.widgets.lemma_has_root();
    }
}

impl<W: Widget> Ui<W> {
    /// Builds a new `Ui` from the widgets of the application, the first of
    /// which is the root, and the ratio of height to width of the viewport.
    pub fn new(widgets: Vec<W>, viewport_height_per_width: Rational) -> (result: Result<
        Ui<W>,
        LayoutError,
    >)
        ensures
            match result {
                Ok(ui) => resolve_root(widgets@, viewport_height_per_width@) == Ok::<
                    NodeModel,
                    LayoutError,
                >(ui@.tree) && ui@.widgets == widgets@ && ui@.ratio == viewport_height_per_width@
                    && !ui@.hovering && !ui@.mouse_down && widgets@.len() > 0,
                Err(e) => resolve_root(widgets@, viewport_height_per_width@) == Err::<
                    NodeModel,
                    LayoutError,
                >(e),
            },
    {
        let alignment = Alignment {
            horizontal: HorizontalAlignment::Center,
            vertical: VerticalAlignment::Center,
        };
        let all = match Widgets::new(widgets) {
            Some(all) => all,
            None => {
                return Err(LayoutError::MisplacedChild);
            },
        };
        match Node::new(&all, 0, &viewport_height_per_width, alignment) {
            Ok(main_node) => Ok(
                Ui {
                    viewport_height_per_width: viewport_height_per_width,
                    widgets: all,
                    main_node: main_node,
                    hovering: false,
                    mouse_down: false,
                },
            ),
            Err(e) => Err(e),
        }
    }

    /// Rebuilds the UI after the state has been changed.
    ///
    /// Where the widgets cannot be resolved, the old tree stays and asks for
    /// a rebuild, so that the next `draw` tries again.
    pub fn rebuild(&mut self) -> (result: Result<(), LayoutError>)
        ensures
            (final(self)@, result) == rebuilt(old(self)@),
            final(self)@.widgets == old(self)@.widgets,
    {
        let alignment = Alignment {
            horizontal: HorizontalAlignment::Center,
            vertical: VerticalAlignment::Center,
        };
        match Node::new(&self.widgets, 0, &self.viewport_height_per_width, alignment) {
            Ok(node) => {
                self.main_node = node;
                Ok(())
            },
            Err(e) => {
                self.main_node.request_rebuild();
                Err(e)
            },
        }
    }

    /// "Draws" the UI by returning a list of shapes. The list is ordered from bottom to top (in
    /// other words, shapes at the start of the list can be obstructed by shapes further ahead
    /// in the list).
    ///
    /// The matrices stored in the shapes assume that the viewport uses OpenGL coordinates. This
    /// means that the viewport has a width of 2, a height of 2, and that the origin is at the
    /// center of the screen.
    ///
    /// The tree is rebuilt first if anything in it asks for that. Where the
    /// rebuild fails, no shapes are returned, and every later call fails in
    /// the same way until the widgets can be resolved.
    pub fn draw(&mut self) -> (result: Result<Vec<Shape>, LayoutError>)
        ensures
            final(self)@ == drawn(old(self)@).0,
            match result {
                Ok(shapes) => drawn(old(self)@).1 == Ok::<Seq<ShapeModel>, LayoutError>(
                    shapes_view(shapes@),
                ),
                Err(e) => drawn(old(self)@).1 == Err::<Seq<ShapeModel>, LayoutError>(e),
            },
            final(self)@.widgets.len() == old(self)@.widgets.len(),
    {
        if self.main_node.needs_rebuild(&mut self.widgets) {
            match self.rebuild() {
                Ok(_) => {},
                Err(e) => {
                    return Err(e);
                },
            }
        }
        Ok(self.main_node.build_shapes())
    }

    /// Changes the height per width ratio of the viewport and rebuilds the UI.
    pub fn set_viewport_height_per_width(&mut self, value: Rational) -> (result: Result<
        (),
        LayoutError,
    >)
        ensures
            (final(self)@, result) == reshaped(old(self)@, value@),
            final(self)@.widgets == old(self)@.widgets,
    {
        if !self.viewport_height_per_width.same(&value) {
            self.viewport_height_per_width = value;
            self.rebuild()
        } else {
            Ok(())
        }
    }

    /// Sets the position and state of the cursor.
    ///
    /// This function will search for shapes that collide with the cursor and send mouse events
    /// to their owner.
    pub fn set_cursor(&mut self, cursor: Option<[Rational; 2]>, down: bool)
        ensures
            final(self)@ == sampled(old(self)@, cursor_view(cursor), down),
            final(self)@.widgets.len() == old(self)@.widgets.len(),
    {
        let was_down = self.mouse_down;
        self.mouse_down = down;
        let _ = self.main_node.mouse_update(
            &mut self.widgets,
            &cursor,
            &Matrix::identity(),
            was_down,
            down,
        );
    }

    /// Returns true if the mouse is hovering one of the elements of the UI.
    pub fn is_hovering(&self) -> (hovering: bool)
        ensures
            hovering == self@.hovering,
    {
        self.hovering
    }

    /// Returns a reference to the main widget stored in the object.
    ///
    /// Note that the UI won't be rebuilt after calling this function. You have to manually call
    /// the `rebuild()` method.
    pub fn widget(&self) -> (root: &W)
        ensures
            self@.widgets.len() > 0,
            *root == self@.widgets[0],
    {
        self.widgets.root()
    }

    /// All widgets of the application, the root first.
    pub fn widgets(&self) -> (all: Vec<&W>)
        ensures
            all@.len() == self@.widgets.len(),
            forall|i: int| 0 <= i < all@.len() ==> *(#[trigger] all@[i]) == self@.widgets[i],
    {
        self.widgets.all()
    }

    /// Puts `widget` in the place of the widget `id` and returns true, or
    /// returns false where there is no such widget.
    ///
    /// Note that the UI won't be rebuilt after calling this function. You have to manually call
    /// the `rebuild()` method.
    pub fn set_widget(&mut self, id: usize, widget: W) -> (done: bool)
        ensures
            done == (id < old(self)@.widgets.len()),
            final(self)@ == if done {
                UiModel { widgets: old(self)@.widgets.update(id as int, widget), ..old(self)@ }
            } else {
                old(self)@
            },
    {
        self.widgets.set(id, widget)
    }
}

} // verus!
