//! Laws of the engine: what holds of every tree and of every sequence of
//! calls.
use crate::dispatch::{scan, scan_children, with_child, Sweep};
use crate::draw::{flatten, flatten_children, seen_through};
use crate::bar::{
    inside_unit_box, lemma_bar_margins_within_box, lemma_leaf_margins_within_box, within_box,
};
use crate::node::{margins_of, NodeModel};
use crate::resolve::{resolve, resolve_all, resolve_layout, Request};
use crate::shape::{covers, Point, ShapeModel};
use crate::transform::{lemma_mul_associative, lemma_mul_identity, Mat3};
use crate::ui::{drawn, UiModel};
use crate::{Alignment, LayoutError, LayoutModel, Widget};
use vstd::prelude::*;

verus! {

/// The transform that a chain of nested frames amounts to, where the frames
/// are given from the outermost to the innermost: the identity, composed
/// with one frame after the other on its way down.
pub open spec fn composed(frames: Seq<Mat3>) -> Mat3
    decreases frames.len(),
{
    if frames.len() == 0 {
        Mat3::identity()
    } else {
        composed(frames.drop_last()).mul(frames.last())
    }
}

/// The shape as seen through a chain of nested frames, given from the
/// outermost to the innermost: it is placed in the innermost frame first,
/// the result in the frame around that, and so on.
pub open spec fn through(shape: ShapeModel, frames: Seq<Mat3>) -> ShapeModel
    decreases frames.len(),
{
    if frames.len() == 0 {
        shape
    } else {
        through(shape.apply_matrix(frames.last()), frames.drop_last())
    }
}

/// A shape placed by the identity is the shape itself.
pub proof fn lemma_identity_places_nothing(shape: ShapeModel)
    ensures
        shape.apply_matrix(Mat3::identity()) == shape,
{
    lemma_mul_identity(shape.matrix());
}

/// Hit-testing respects nested transforms. A shape that is taken through a
/// chain of frames, one frame at a time, is the shape placed by the composed
/// transform of the chain; so a point hits the one where it hits the other.
pub proof fn lemma_hit_test_through_frames(shape: ShapeModel, frames: Seq<Mat3>, p: Point)
    ensures
        through(shape, frames) == shape.apply_matrix(composed(frames)),
        covers(through(shape, frames).matrix(), p) == covers(
            composed(frames).mul(shape.matrix()),
            p,
        ),
    decreases frames.len(),
{
    if frames.len() == 0 {
        lemma_identity_places_nothing(shape);
    } else {
        let inner = shape.apply_matrix(frames.last());
        lemma_hit_test_through_frames(inner, frames.drop_last(), p);
        lemma_mul_associative(composed(frames.drop_last()), frames.last(), shape.matrix());
    }
}

/// The shapes of a node and of everything below it, each placed as the
/// cursor finds it: the node is placed by `matrix`, and every child by
/// `matrix` composed with the child's own transform.
pub open spec fn placed_shapes(node: NodeModel, matrix: Mat3) -> Seq<ShapeModel>
    decreases node, node.children.len() + 1,
{
    placed_shapes_of_children(node, matrix, node.children.len()) + seen_through(
        node.shapes,
        matrix,
    )
}

/// The shapes below the first `upto` children of a node, each placed as the
/// cursor finds it.
pub open spec fn placed_shapes_of_children(node: NodeModel, matrix: Mat3, upto: nat) -> Seq<
    ShapeModel,
>
    decreases node, upto,
{
    if upto == 0 || upto > node.children.len() {
        Seq::empty()
    } else {
        placed_shapes_of_children(node, matrix, (upto - 1) as nat) + placed_shapes(
            node.children[upto - 1].1,
            matrix.mul(node.children[upto - 1].0),
        )
    }
}

proof fn lemma_seen_through_twice(shapes: Seq<ShapeModel>, inner: Mat3, outer: Mat3)
    ensures
        seen_through(seen_through(shapes, inner), outer) == seen_through(shapes, outer.mul(inner)),
{
    assert forall|k: int| 0 <= k < shapes.len() implies seen_through(
        seen_through(shapes, inner),
        outer,
    )[k] == seen_through(shapes, outer.mul(inner))[k] by {
        lemma_mul_associative(outer, inner, shapes[k].matrix());
    }
    assert(seen_through(seen_through(shapes, inner), outer) =~= seen_through(
        shapes,
        outer.mul(inner),
    ));
}

proof fn lemma_seen_through_sum(a: Seq<ShapeModel>, b: Seq<ShapeModel>, m: Mat3)
    ensures
        seen_through(a + b, m) == seen_through(a, m) + seen_through(b, m),
{
    assert(seen_through(a + b, m) =~= seen_through(a, m) + seen_through(b, m));
}

/// The cursor is tested against the shapes that are drawn. What the walk of
/// the cursor finds below a node, each shape under the transform that the
/// walk has composed on its way down, is what flattening the node gives, seen
/// through the transform of the node.
pub proof fn lemma_cursor_meets_what_is_drawn(node: NodeModel, matrix: Mat3)
    ensures
        placed_shapes(node, matrix) == seen_through(flatten(node), matrix),
    decreases node, node.children.len() + 1,
{
    lemma_cursor_meets_children(node, matrix, node.children.len());
    lemma_seen_through_sum(flatten_children(node, node.children.len()), node.shapes, matrix);
}

proof fn lemma_cursor_meets_children(node: NodeModel, matrix: Mat3, upto: nat)
    requires
        upto <= node.children.len(),
    ensures
        placed_shapes_of_children(node, matrix, upto) == seen_through(
            flatten_children(node, upto),
            matrix,
        ),
    decreases node, upto,
{
    if upto == 0 {
        assert(seen_through(Seq::<ShapeModel>::empty(), matrix) =~= Seq::<ShapeModel>::empty());
    } else {
        let (placing, child) = node.children[upto - 1];
        lemma_cursor_meets_children(node, matrix, (upto - 1) as nat);
        lemma_cursor_meets_what_is_drawn(child, matrix.mul(placing));
        lemma_seen_through_twice(flatten(child), placing, matrix);
        lemma_seen_through_sum(
            flatten_children(node, (upto - 1) as nat),
            seen_through(flatten(child), placing),
            matrix,
        );
    }
}

/// At the root, which the identity places, the cursor is tested against
/// exactly the shapes that `draw` returns.
pub proof fn lemma_cursor_meets_the_drawing(root: NodeModel)
    ensures
        placed_shapes(root, Mat3::identity()) == flatten(root),
{
    lemma_cursor_meets_what_is_drawn(root, Mat3::identity());
    let shapes = flatten(root);
    assert forall|k: int| 0 <= k < shapes.len() implies seen_through(shapes, Mat3::identity())[k]
        == shapes[k] by {
        lemma_identity_places_nothing(shapes[k]);
    }
    assert(seen_through(shapes, Mat3::identity()) =~= shapes);
}

/// Whether no node of the tree asks for a rebuild.
pub open spec fn clean(node: NodeModel) -> bool
    decreases node,
{
    &&& !node.needs_rebuild
    &&& forall|k: int| 0 <= k < node.children.len() ==> clean(#[trigger] node.children[k].1)
}

/// Whether no widget reports that it is stale, and asking changes none.
pub open spec fn at_rest<W: Widget>(ws: Seq<W>) -> bool {
    forall|i: int| 0 <= i < ws.len() ==> !(#[trigger] ws[i]).stale() && ws[i].polled() == ws[i]
}

/// In a clean tree over widgets at rest the search finds nothing and
/// changes nothing.
pub proof fn lemma_nothing_to_find<W: Widget>(node: NodeModel, ws: Seq<W>)
    requires
        clean(node),
        at_rest(ws),
    ensures
        scan(node, ws) == (Sweep { node: node, widgets: ws, found: false }),
    decreases node, node.children.len() + 1,
{
    if node.widget < ws.len() {
        assert(ws.update(node.widget as int, ws[node.widget as int].polled()) =~= ws);
    }
    lemma_nothing_to_find_below(node, ws, node.children.len());
}

proof fn lemma_nothing_to_find_below<W: Widget>(node: NodeModel, ws: Seq<W>, upto: nat)
    requires
        clean(node),
        at_rest(ws),
        upto <= node.children.len(),
    ensures
        scan_children(node, ws, upto) == (Sweep { node: node, widgets: ws, found: false }),
    decreases node, upto,
{
    if upto > 0 {
        lemma_nothing_to_find_below(node, ws, (upto - 1) as nat);
        let child = node.children[upto - 1].1;
        assert(clean(child));
        lemma_nothing_to_find(child, ws);
        assert(with_child(node, upto - 1, child).children =~= node.children);
    }
}

/// A search that finds nothing has met a clean tree and leaves it as it
/// was.
pub proof fn lemma_fruitless_search<W: Widget>(node: NodeModel, ws: Seq<W>)
    requires
        !scan(node, ws).found,
    ensures
        scan(node, ws).node == node,
        clean(node),
    decreases node, node.children.len() + 1,
{
    let asked = if node.widget < ws.len() {
        ws.update(node.widget as int, ws[node.widget as int].polled())
    } else {
        ws
    };
    lemma_fruitless_search_below(node, asked, node.children.len());
}

proof fn lemma_fruitless_search_below<W: Widget>(node: NodeModel, ws: Seq<W>, upto: nat)
    requires
        !node.needs_rebuild,
        upto <= node.children.len(),
        !scan_children(node, ws, upto).found,
    ensures
        scan_children(node, ws, upto).node == node,
        forall|k: int| 0 <= k < upto ==> clean(#[trigger] node.children[k].1),
    decreases node, upto,
{
    if upto > 0 {
        let before = scan_children(node, ws, (upto - 1) as nat);
        lemma_fruitless_search_below(node, ws, (upto - 1) as nat);
        let child = node.children[upto - 1].1;
        lemma_fruitless_search(child, before.widgets);
        assert(with_child(node, upto - 1, child).children =~= node.children);
    }
}

/// A tree that was just resolved is clean.
pub proof fn lemma_resolved_is_clean<W: Widget>(
    ws: Seq<W>,
    id: usize,
    ratio: real,
    alignment: Alignment,
)
    requires
        resolve(ws, id, ratio, alignment) is Ok,
    ensures
        clean(resolve(ws, id, ratio, alignment)->Ok_0),
    decreases ws.len() - id, 2nat, 0nat,
{
    if id < ws.len() {
        lemma_resolved_layout_is_clean(ws, id, ratio, ws[id as int].layout(ratio, alignment));
    }
}

proof fn lemma_resolved_layout_is_clean<W: Widget>(
    ws: Seq<W>,
    id: usize,
    ratio: real,
    layout: LayoutModel,
)
    requires
        resolve_layout(ws, id, ratio, layout) is Ok,
    ensures
        clean(resolve_layout(ws, id, ratio, layout)->Ok_0),
    decreases ws.len() - id, 1nat, 0nat,
{
    if id < ws.len() {
        match layout {
            LayoutModel::AbsolutePositionned(list) => {
                lemma_resolved_children_are_clean(
                    ws,
                    id,
                    crate::resolve::placed_requests(list, ratio),
                );
            },
            LayoutModel::HorizontalBar { alignment, children } => {
                lemma_resolved_children_are_clean(
                    ws,
                    id,
                    crate::resolve::bar_requests(children, ratio, false),
                );
            },
            LayoutModel::VerticalBar { alignment, children } => {
                lemma_resolved_children_are_clean(
                    ws,
                    id,
                    crate::resolve::bar_requests(children, ratio, true),
                );
            },
            LayoutModel::Shapes(shapes) => {},
        }
    }
}

proof fn lemma_resolved_children_are_clean<W: Widget>(
    ws: Seq<W>,
    parent: usize,
    requests: Seq<Request>,
)
    requires
        resolve_all(ws, parent, requests) is Ok,
    ensures
        resolve_all(ws, parent, requests)->Ok_0.len() == requests.len(),
        forall|k: int|
            0 <= k < requests.len() ==> clean(#[trigger] resolve_all(ws, parent, requests)->Ok_0[k]),
    decreases ws.len() - parent, 0nat, requests.len(),
{
    if requests.len() > 0 {
        lemma_resolved_children_are_clean(ws, parent, requests.drop_last());
        let last = requests.last();
        lemma_resolved_is_clean(ws, last.widget, last.ratio, last.alignment);
    }
}

/// Whether the shapes that a layout holds all stay inside the unit box.
pub open spec fn layout_fits(layout: LayoutModel) -> bool {
    layout is Shapes ==> forall|k: int|
        0 <= k < layout->Shapes_0.len() ==> inside_unit_box(#[trigger] layout->Shapes_0[k])
}

/// Whether no widget ever reports a shape that leaves the unit box.
pub open spec fn shapes_fit<W: Widget>(ws: Seq<W>) -> bool {
    forall|i: int, ratio: real, alignment: Alignment|
        0 <= i < ws.len() ==> layout_fits(#[trigger] ws[i].layout(ratio, alignment))
}

/// Whether a tree is in order. Every margin of every node lies between 0
/// and 2. A node has shapes or children, never both. No node asks for a
/// rebuild.
pub open spec fn in_order(node: NodeModel) -> bool
    decreases node,
{
    &&& within_box(node.margins)
    &&& node.children.len() == 0 || node.shapes.len() == 0
    &&& !node.needs_rebuild
    &&& forall|k: int| 0 <= k < node.children.len() ==> in_order(#[trigger] node.children[k].1)
}

/// A tree that was resolved from widgets whose shapes stay inside the unit
/// box is in order, whatever the weights, the paddings and the alignments of
/// the bars in it.
pub proof fn lemma_resolved_is_in_order<W: Widget>(
    ws: Seq<W>,
    id: usize,
    ratio: real,
    alignment: Alignment,
)
    requires
        shapes_fit(ws),
        resolve(ws, id, ratio, alignment) is Ok,
    ensures
        in_order(resolve(ws, id, ratio, alignment)->Ok_0),
    decreases ws.len() - id, 2nat, 0nat,
{
    if id < ws.len() {
        let layout = ws[id as int].layout(ratio, alignment);
        assert(layout_fits(layout));
        lemma_resolved_layout_is_in_order(ws, id, ratio, layout);
    }
}

proof fn lemma_resolved_layout_is_in_order<W: Widget>(
    ws: Seq<W>,
    id: usize,
    ratio: real,
    layout: LayoutModel,
)
    requires
        shapes_fit(ws),
        layout_fits(layout),
        resolve_layout(ws, id, ratio, layout) is Ok,
    ensures
        in_order(resolve_layout(ws, id, ratio, layout)->Ok_0),
    decreases ws.len() - id, 1nat, 0nat,
{
    let node = resolve_layout(ws, id, ratio, layout)->Ok_0;
    if id < ws.len() {
        match layout {
            LayoutModel::AbsolutePositionned(list) => {
                lemma_resolved_children_are_in_order(
                    ws,
                    id,
                    crate::resolve::placed_requests(list, ratio),
                );
            },
            LayoutModel::HorizontalBar { alignment, children } => {
                let requests = crate::resolve::bar_requests(children, ratio, false);
                lemma_resolved_children_are_in_order(ws, id, requests);
                let nodes = resolve_all(ws, id, requests)->Ok_0;
                assert forall|k: int| 0 <= k < children.len() implies within_box(
                    #[trigger] margins_of(nodes)[k],
                ) by {
                    assert(in_order(nodes[k]));
                }
                lemma_bar_margins_within_box(children, margins_of(nodes), false);
            },
            LayoutModel::VerticalBar { alignment, children } => {
                let requests = crate::resolve::bar_requests(children, ratio, true);
                lemma_resolved_children_are_in_order(ws, id, requests);
                let nodes = resolve_all(ws, id, requests)->Ok_0;
                assert forall|k: int| 0 <= k < children.len() implies within_box(
                    #[trigger] margins_of(nodes)[k],
                ) by {
                    assert(in_order(nodes[k]));
                }
                lemma_bar_margins_within_box(children, margins_of(nodes), true);
            },
            LayoutModel::Shapes(shapes) => {
                lemma_leaf_margins_within_box(shapes);
            },
        }
    }
}

proof fn lemma_resolved_children_are_in_order<W: Widget>(
    ws: Seq<W>,
    parent: usize,
    requests: Seq<Request>,
)
    requires
        shapes_fit(ws),
        resolve_all(ws, parent, requests) is Ok,
    ensures
        resolve_all(ws, parent, requests)->Ok_0.len() == requests.len(),
        forall|k: int|
            0 <= k < requests.len() ==> in_order(
                #[trigger] resolve_all(ws, parent, requests)->Ok_0[k],
            ),
    decreases ws.len() - parent, 0nat, requests.len(),
{
    if requests.len() > 0 {
        lemma_resolved_children_are_in_order(ws, parent, requests.drop_last());
        let last = requests.last();
        lemma_resolved_is_in_order(ws, last.widget, last.ratio, last.alignment);
    }
}

/// A node stands for the widget that it was resolved from, and it has no
/// children where the widget reported shapes: then it holds just these.
pub proof fn lemma_shapes_make_a_leaf<W: Widget>(
    ws: Seq<W>,
    id: usize,
    ratio: real,
    alignment: Alignment,
)
    requires
        resolve(ws, id, ratio, alignment) is Ok,
    ensures
        resolve(ws, id, ratio, alignment)->Ok_0.widget == id,
        id < ws.len(),
        ws[id as int].layout(ratio, alignment) is Shapes ==> resolve(
            ws,
            id,
            ratio,
            alignment,
        )->Ok_0 == NodeModel::leaf(id, ws[id as int].layout(ratio, alignment)->Shapes_0),
{
}

/// `draw` is idempotent. Where a call of `draw` succeeds and leaves the
/// widgets at rest, the next call changes nothing and returns the same
/// shapes.
pub proof fn lemma_draw_is_idempotent<W: Widget>(ui: UiModel<W>)
    requires
        drawn(ui).1 is Ok,
        at_rest(drawn(ui).0.widgets),
    ensures
        drawn(drawn(ui).0) == drawn(ui),
{
    let sweep = scan(ui.tree, ui.widgets);
    let after = drawn(ui).0;
    if sweep.found {
        lemma_resolved_is_clean(sweep.widgets, 0, ui.ratio, Alignment::centered());
    } else {
        lemma_fruitless_search(ui.tree, ui.widgets);
    }
    assert(clean(after.tree));
    lemma_nothing_to_find(after.tree, after.widgets);
}

/// A call of `draw` that meets nothing that asks for a rebuild returns the
/// shapes of the tree as it is, whatever happened to the widgets.
pub proof fn lemma_draw_without_rebuild<W: Widget>(ui: UiModel<W>)
    requires
        !scan(ui.tree, ui.widgets).found,
    ensures
        drawn(ui).0.tree == ui.tree,
        drawn(ui).1 == Ok::<Seq<ShapeModel>, LayoutError>(flatten(ui.tree)),
{
    lemma_fruitless_search(ui.tree, ui.widgets);
}

} // verus!
