//! The arithmetic of a bar: how the children of a horizontal or vertical bar
//! share its flow axis, where each of them is placed, and which margins the
//! bar itself reports.
//!
//! The flow axis is the axis along which the children follow each other; the
//! other one is the perpendicular axis. Coordinates run from -1 to 1 on both,
//! so the whole bar is 2 long, and a child that occupies the fraction `f` of
//! the bar is `2 * f` long.
use crate::shape::{bounds, real_min, ShapeModel};
use crate::transform::Mat3;
use crate::{Alignment, ChildModel, HorizontalAlignment, VerticalAlignment};
use vstd::prelude::*;

verus! {

/// How much of a widget's box is unused at each edge, in the coordinates of
/// the box: 0 where the content reaches the edge, 2 where it starts at the
/// opposite edge.
pub struct Margins {
    pub top: real,
    pub right: real,
    pub bottom: real,
    pub left: real,
}

/// One of the four edges of a box.
#[derive(Copy, Clone, Debug, PartialEq, Eq, Structural)]
pub enum Edge {
    Top,
    Right,
    Bottom,
    Left,
}

impl Margins {
    /// No unused space at any edge.
    pub open spec fn none() -> Margins {
        Margins { top: 0real, right: 0real, bottom: 0real, left: 0real }
    }

    /// The margin at the given edge.
    pub open spec fn at(self, edge: Edge) -> real {
        match edge {
            Edge::Top => self.top,
            Edge::Right => self.right,
            Edge::Bottom => self.bottom,
            Edge::Left => self.left,
        }
    }
}

/// The smallest of the values; 1 where there is none, which says of each of
/// two opposite edges that half of the box is unused.
pub open spec fn least(values: Seq<real>) -> real
    decreases values.len(),
{
    if values.len() == 0 {
        1real
    } else if values.len() == 1 {
        values[0]
    } else {
        real_min(least(values.drop_last()), values.last())
    }
}

/// The margins of a widget without children: at each edge the smallest
/// distance, over its shapes, between the edge and the shape's outline.
pub open spec fn shape_margins(shapes: Seq<ShapeModel>) -> Margins {
    Margins {
        top: least(unused_at(shapes, Edge::Top)),
        right: least(unused_at(shapes, Edge::Right)),
        bottom: least(unused_at(shapes, Edge::Bottom)),
        left: least(unused_at(shapes, Edge::Left)),
    }
}

/// The distance between an edge of the unit box and the outline of a shape.
pub open spec fn unused(shape: ShapeModel, edge: Edge) -> real {
    let outline = bounds(shape.matrix());
    match edge {
        Edge::Top => 1real - outline.top,
        Edge::Right => 1real - outline.right,
        Edge::Bottom => outline.bottom + 1real,
        Edge::Left => outline.left + 1real,
    }
}

/// The distances between one edge of the unit box and each of the shapes.
pub open spec fn unused_at(shapes: Seq<ShapeModel>, edge: Edge) -> Seq<real> {
    Seq::new(shapes.len(), |k: int| unused(shapes[k], edge))
}

/// The smallest of the first `k + 1` values, from that of the first `k`.
pub proof fn lemma_least_step(values: Seq<real>, k: int)
    requires
        0 <= k < values.len(),
    ensures
        least(values.take(k + 1)) == if k == 0 {
            values[0]
        } else {
            real_min(least(values.take(k)), values[k])
        },
{
    assert(values.take(k + 1).drop_last() =~= values.take(k));
}

/// What the first `k + 1` children occupy, from what the first `k` do.
pub proof fn lemma_occupied_step(
    children: Seq<ChildModel>,
    margins: Seq<Margins>,
    total: real,
    vertical: bool,
    k: int,
)
    requires
        0 <= k < children.len(),
        children.len() == margins.len(),
    ensures
        occupied(children.take(k + 1), margins.take(k + 1), total, vertical) == occupied(
            children.take(k),
            margins.take(k),
            total,
            vertical,
        ) + footprint(children[k], margins[k], total, vertical),
{
    assert(children.take(k + 1).drop_last() =~= children.take(k));
    assert(margins.take(k + 1).drop_last() =~= margins.take(k));
}

/// The weight of the first `k + 1` children, from that of the first `k`.
pub proof fn lemma_weight_sum_step(children: Seq<ChildModel>, k: int)
    requires
        0 <= k < children.len(),
    ensures
        weight_sum(children.take(k + 1)) == weight_sum(children.take(k)) + children[k].weight,
{
    assert(children.take(k + 1).drop_last() =~= children.take(k));
}

/// The sum of the weights of the children.
pub open spec fn weight_sum(children: Seq<ChildModel>) -> int
    decreases children.len(),
{
    if children.len() == 0 {
        0
    } else {
        weight_sum(children.drop_last()) + children.last().weight
    }
}

/// Whether every child has a weight of at least one.
pub open spec fn weights_positive(children: Seq<ChildModel>) -> bool {
    forall|k: int| 0 <= k < children.len() ==> (#[trigger] children[k]).weight >= 1
}

/// The part of the bar that the weight of a child entitles it to, where
/// `total` is the weight of all children of the bar.
pub open spec fn share(c: ChildModel, total: real) -> real {
    c.weight as real / total
}

/// The ratio of height to width of the box that a child is resolved in,
/// where the bar's own is `ratio`: along the flow axis the box is the child's
/// share of the bar, across it the whole.
pub open spec fn child_ratio(ratio: real, c: ChildModel, total: real, vertical: bool) -> real {
    if vertical {
        ratio * share(c, total)
    } else {
        ratio / share(c, total)
    }
}

/// The length along the flow axis that a child gives up: nothing unless it
/// collapses, else its own margins at the two ends of that axis. The
/// paddings of a child have no part in this: they only shrink the child
/// within the place that it is given.
pub open spec fn flow_empty(c: ChildModel, m: Margins, vertical: bool) -> real {
    if c.collapse {
        if vertical {
            m.top + m.bottom
        } else {
            m.left + m.right
        }
    } else {
        0real
    }
}

/// The fraction of the bar's flow axis that a child occupies.
pub open spec fn footprint(c: ChildModel, m: Margins, total: real, vertical: bool) -> real {
    share(c, total) * (2real - flow_empty(c, m, vertical)) / 2real
}

/// The fraction of the bar's flow axis that the given children occupy
/// together, where `total` is the weight of all children of the bar.
pub open spec fn occupied(
    children: Seq<ChildModel>,
    margins: Seq<Margins>,
    total: real,
    vertical: bool,
) -> real
    decreases children.len(),
{
    if children.len() == 0 {
        0real
    } else {
        occupied(children.drop_last(), margins.drop_last(), total, vertical) + footprint(
            children.last(),
            margins.last(),
            total,
            vertical,
        )
    }
}

/// Where the first child begins on the flow axis, for children that occupy
/// the fraction `occupied` of it. The flow begins at the coordinate -1.
/// `Left` and `Top` put the group at the edge where the flow begins, `Right`
/// and `Bottom` at the edge where it ends, and `Center` in the middle.
pub open spec fn flow_start(alignment: Alignment, vertical: bool, occupied: real) -> real {
    if vertical {
        match alignment.vertical {
            VerticalAlignment::Top => -1real,
            VerticalAlignment::Center => -occupied,
            VerticalAlignment::Bottom => 1real - occupied * 2real,
        }
    } else {
        match alignment.horizontal {
            HorizontalAlignment::Left => -1real,
            HorizontalAlignment::Center => -occupied,
            HorizontalAlignment::Right => 1real - occupied * 2real,
        }
    }
}

/// Where child `k` begins on the flow axis: behind the children before it.
pub open spec fn child_begin(
    children: Seq<ChildModel>,
    margins: Seq<Margins>,
    alignment: Alignment,
    vertical: bool,
    k: int,
) -> real {
    let total = weight_sum(children) as real;
    flow_start(alignment, vertical, occupied(children, margins, total, vertical)) + occupied(
        children.take(k),
        margins.take(k),
        total,
        vertical,
    ) * 2real
}

/// The middle of child `k` on the flow axis.
pub open spec fn child_center(
    children: Seq<ChildModel>,
    margins: Seq<Margins>,
    alignment: Alignment,
    vertical: bool,
    k: int,
) -> real {
    child_begin(children, margins, alignment, vertical, k) + footprint(
        children[k],
        margins[k],
        weight_sum(children) as real,
        vertical,
    )
}

/// The transform that shrinks a box by the paddings of a child.
pub open spec fn padding_transform(c: ChildModel) -> Mat3 {
    Mat3::translate(
        (c.padding_left - c.padding_right) / 2real,
        (c.padding_bottom - c.padding_top) / 2real,
    ).mul(
        Mat3::scale_wh(
            1real - (c.padding_left + c.padding_right) / 2real,
            1real - (c.padding_bottom + c.padding_top) / 2real,
        ),
    )
}

/// The transform that places a child whose middle on the flow axis is
/// `center` and whose share of the bar is `share`: the paddings first, then
/// the scale to the child's share, then the move to its place.
pub open spec fn placement(c: ChildModel, center: real, share: real, vertical: bool) -> Mat3 {
    let position = if vertical {
        Mat3::translate(0real, center)
    } else {
        Mat3::translate(center, 0real)
    };
    let scale = if vertical {
        Mat3::scale_wh(1real, share)
    } else {
        Mat3::scale_wh(share, 1real)
    };
    position.mul(scale).mul(padding_transform(c))
}

/// The transform of child `k` of a bar, relative to the bar.
pub open spec fn child_transform(
    children: Seq<ChildModel>,
    margins: Seq<Margins>,
    alignment: Alignment,
    vertical: bool,
    k: int,
) -> Mat3 {
    placement(
        children[k],
        child_center(children, margins, alignment, vertical, k),
        share(children[k], weight_sum(children) as real),
        vertical,
    )
}

/// The margins of the children at one edge.
pub open spec fn margins_at(margins: Seq<Margins>, edge: Edge) -> Seq<real> {
    Seq::new(margins.len(), |k: int| margins[k].at(edge))
}

/// The first child at or behind the position `from` that does not collapse;
/// the number of children where there is none.
pub open spec fn first_uncollapsed(children: Seq<ChildModel>, from: int) -> int
    decreases children.len() - from,
{
    if from < 0 || from >= children.len() {
        children.len() as int
    } else if !children[from].collapse {
        from
    } else {
        first_uncollapsed(children, from + 1)
    }
}

/// The last child before the position `upto` that does not collapse; -1
/// where there is none.
pub open spec fn last_uncollapsed(children: Seq<ChildModel>, upto: int) -> int
    decreases upto,
{
    if upto <= 0 || upto > children.len() {
        -1
    } else if !children[upto - 1].collapse {
        upto - 1
    } else {
        last_uncollapsed(children, upto - 1)
    }
}

/// The margin that a bar reports at an end of its flow axis, from child `k`:
/// the margin of the child at that edge, on the scale of the bar. Nothing
/// where there is no child `k`.
pub open spec fn end_margin(children: Seq<ChildModel>, margins: Seq<Margins>, k: int, edge: Edge) -> real {
    if 0 <= k < children.len() {
        margins[k].at(edge) * share(
            children[k],
            weight_sum(children) as real,
        )
    } else {
        0real
    }
}

/// The margins that a bar reports. Across the flow they are the smallest of
/// its children's. Along the flow they come from the first and from the last
/// child that does not collapse, and a bar all of whose children collapse
/// reports none. The flow of a vertical bar runs from the bottom margin to
/// the top margin.
pub open spec fn bar_margins(children: Seq<ChildModel>, margins: Seq<Margins>, vertical: bool) -> Margins {
    let first = first_uncollapsed(children, 0);
    let last = last_uncollapsed(children, children.len() as int);
    if vertical {
        Margins {
            top: end_margin(children, margins, last, Edge::Top),
            right: least(margins_at(margins, Edge::Right)),
            bottom: end_margin(children, margins, first, Edge::Bottom),
            left: least(margins_at(margins, Edge::Left)),
        }
    } else {
        Margins {
            top: least(margins_at(margins, Edge::Top)),
            right: end_margin(children, margins, last, Edge::Right),
            bottom: least(margins_at(margins, Edge::Bottom)),
            left: end_margin(children, margins, first, Edge::Left),
        }
    }
}

/// Where the search for a child that does not collapse ends.
pub proof fn lemma_uncollapsed_in_range(children: Seq<ChildModel>, k: int)
    requires
        0 <= k <= children.len(),
    ensures
        k <= first_uncollapsed(children, k) <= children.len(),
        -1 <= last_uncollapsed(children, k) < k,
{
    lemma_first_uncollapsed_in_range(children, k);
    lemma_last_uncollapsed_in_range(children, k);
}

proof fn lemma_first_uncollapsed_in_range(children: Seq<ChildModel>, k: int)
    requires
        0 <= k <= children.len(),
    ensures
        k <= first_uncollapsed(children, k) <= children.len(),
    decreases children.len() - k,
{
    if k < children.len() && children[k].collapse {
        lemma_first_uncollapsed_in_range(children, k + 1);
    }
}

proof fn lemma_last_uncollapsed_in_range(children: Seq<ChildModel>, k: int)
    requires
        0 <= k <= children.len(),
    ensures
        -1 <= last_uncollapsed(children, k) < k,
    decreases k,
{
    if k > 0 && children[k - 1].collapse {
        lemma_last_uncollapsed_in_range(children, k - 1);
    }
}

pub proof fn lemma_weight_sum_positive(children: Seq<ChildModel>)
    requires
        weights_positive(children),
    ensures
        weight_sum(children) >= children.len(),
    decreases children.len(),
{
    if children.len() > 0 {
        assert forall|k: int| 0 <= k < children.drop_last().len() implies (
        #[trigger] children.drop_last()[k]).weight >= 1 by {
            assert(children.drop_last()[k] == children[k]);
        }
        lemma_weight_sum_positive(children.drop_last());
        assert(children.last() == children[children.len() - 1]);
    }
}

proof fn lemma_same_denominator(a: real, b: real, d: real)
    requires
        d != 0real,
    ensures
        a / d + b / d == (a + b) / d,
        d / d == 1real,
        a * 2real / 2real == a,
{
    assert(a / d + b / d == (a + b) / d) by (nonlinear_arith)
        requires
            d != 0real,
    ;
    assert(d / d == 1real) by (nonlinear_arith)
        requires
            d != 0real,
    ;
}

proof fn lemma_uncollapsed_prefix(
    children: Seq<ChildModel>,
    margins: Seq<Margins>,
    total: real,
    vertical: bool,
)
    requires
        children.len() == margins.len(),
        total != 0real,
        forall|k: int| 0 <= k < children.len() ==> !(#[trigger] children[k]).collapse,
    ensures
        occupied(children, margins, total, vertical) == weight_sum(children) as real / total,
    decreases children.len(),
{
    let d = total;
    if children.len() == 0 {
        assert(0real / d == 0real) by (nonlinear_arith)
            requires
                d != 0real,
        ;
    } else {
        let front = children.drop_last();
        assert forall|k: int| 0 <= k < front.len() implies !(#[trigger] front[k]).collapse by {
            assert(front[k] == children[k]);
        }
        lemma_uncollapsed_prefix(front, margins.drop_last(), total, vertical);
        let c = children.last();
        assert(c == children[children.len() - 1]);
        let w = c.weight as real;
        let s = weight_sum(front) as real;
        lemma_same_denominator(s, w, d);
        assert(footprint(c, margins.last(), total, vertical) == w / d) by {
            let q = w / d;
            assert(flow_empty(c, margins.last(), vertical) == 0real);
            assert(2real - 0real == 2real);
            assert(q * 2real / 2real == q);
        }
        assert((weight_sum(front) + c.weight) as real == s + w);
    }
}

/// The children of a bar none of which collapses occupy the whole of its
/// flow axis, however the weight is distributed among them.
pub proof fn lemma_uncollapsed_bar_is_full(
    children: Seq<ChildModel>,
    margins: Seq<Margins>,
    vertical: bool,
)
    requires
        children.len() == margins.len(),
        children.len() > 0,
        weights_positive(children),
        forall|k: int| 0 <= k < children.len() ==> !(#[trigger] children[k]).collapse,
    ensures
        occupied(children, margins, weight_sum(children) as real, vertical) == 1real,
{
    lemma_weight_sum_positive(children);
    let total = weight_sum(children) as real;
    lemma_uncollapsed_prefix(children, margins, total, vertical);
    lemma_same_denominator(0real, 0real, total);
}

/// Whether each of the margins lies between 0 and 2, the two ends of a box.
pub open spec fn within_box(m: Margins) -> bool {
    &&& 0real <= m.top <= 2real
    &&& 0real <= m.right <= 2real
    &&& 0real <= m.bottom <= 2real
    &&& 0real <= m.left <= 2real
}

/// Whether the outline of a shape stays inside the unit box.
pub open spec fn inside_unit_box(shape: ShapeModel) -> bool {
    let outline = bounds(shape.matrix());
    &&& outline.top <= 1real
    &&& outline.right <= 1real
    &&& -1real <= outline.bottom
    &&& -1real <= outline.left
}

proof fn lemma_least_between(values: Seq<real>, low: real, high: real)
    requires
        low <= 1real <= high,
        forall|k: int| 0 <= k < values.len() ==> low <= #[trigger] values[k] <= high,
    ensures
        low <= least(values) <= high,
    decreases values.len(),
{
    if values.len() > 1 {
        assert forall|k: int| 0 <= k < values.drop_last().len() implies low
            <= #[trigger] values.drop_last()[k] <= high by {
            assert(values.drop_last()[k] == values[k]);
        }
        lemma_least_between(values.drop_last(), low, high);
        assert(values.last() == values[values.len() - 1]);
    }
}

/// The margins of a widget without children lie between 0 and 2 where none
/// of its shapes leaves the unit box.
pub proof fn lemma_leaf_margins_within_box(shapes: Seq<ShapeModel>)
    requires
        forall|k: int| 0 <= k < shapes.len() ==> inside_unit_box(#[trigger] shapes[k]),
    ensures
        within_box(shape_margins(shapes)),
{
    assert forall|k: int, edge: Edge| 0 <= k < shapes.len() implies 0real <= #[trigger] unused_at(
        shapes,
        edge,
    )[k] <= 2real by {
        assert(inside_unit_box(shapes[k]));
    }
    lemma_least_between(unused_at(shapes, Edge::Top), 0real, 2real);
    lemma_least_between(unused_at(shapes, Edge::Right), 0real, 2real);
    lemma_least_between(unused_at(shapes, Edge::Bottom), 0real, 2real);
    lemma_least_between(unused_at(shapes, Edge::Left), 0real, 2real);
}

proof fn lemma_weight_within_sum(children: Seq<ChildModel>, k: int)
    requires
        weights_positive(children),
        0 <= k < children.len(),
    ensures
        1 <= children[k].weight <= weight_sum(children),
    decreases children.len(),
{
    let front = children.drop_last();
    assert forall|j: int| 0 <= j < front.len() implies (#[trigger] front[j]).weight >= 1 by {
        assert(front[j] == children[j]);
    }
    lemma_weight_sum_positive(front);
    if k < children.len() - 1 {
        lemma_weight_within_sum(front, k);
        assert(front[k] == children[k]);
        assert(children.last() == children[children.len() - 1]);
    }
}

proof fn lemma_end_margin_within_box(
    children: Seq<ChildModel>,
    margins: Seq<Margins>,
    k: int,
    edge: Edge,
)
    requires
        children.len() == margins.len(),
        weights_positive(children),
        -1 <= k < children.len(),
        k >= 0 ==> within_box(margins[k]),
    ensures
        0real <= end_margin(children, margins, k, edge) <= 2real,
{
    if k >= 0 {
        lemma_weight_within_sum(children, k);
        let w = children[k].weight as real;
        let t = weight_sum(children) as real;
        let margin = margins[k].at(edge);
        assert(0real <= margin * (w / t) <= 2real) by (nonlinear_arith)
            requires
                1real <= w <= t,
                0real <= margin <= 2real,
        ;
    }
}

/// The margins of a bar lie between 0 and 2 where those of each child do,
/// whatever the paddings are.
pub proof fn lemma_bar_margins_within_box(
    children: Seq<ChildModel>,
    margins: Seq<Margins>,
    vertical: bool,
)
    requires
        children.len() == margins.len(),
        weights_positive(children),
        forall|k: int| 0 <= k < children.len() ==> within_box(#[trigger] margins[k]),
    ensures
        within_box(bar_margins(children, margins, vertical)),
{
    let n = children.len() as int;
    assert forall|k: int, edge: Edge| 0 <= k < n implies 0real <= #[trigger] margins_at(
        margins,
        edge,
    )[k] <= 2real by {
        assert(within_box(margins[k]));
    }
    lemma_least_between(margins_at(margins, Edge::Top), 0real, 2real);
    lemma_least_between(margins_at(margins, Edge::Right), 0real, 2real);
    lemma_least_between(margins_at(margins, Edge::Bottom), 0real, 2real);
    lemma_least_between(margins_at(margins, Edge::Left), 0real, 2real);
    lemma_uncollapsed_in_range(children, 0);
    lemma_uncollapsed_in_range(children, n);
    let first = first_uncollapsed(children, 0);
    let last = last_uncollapsed(children, n);
    if first < n {
        assert(within_box(margins[first]));
        lemma_end_margin_within_box(children, margins, first, Edge::Bottom);
        lemma_end_margin_within_box(children, margins, first, Edge::Left);
    }
    if last >= 0 {
        assert(within_box(margins[last]));
    }
    lemma_end_margin_within_box(children, margins, last, Edge::Top);
    lemma_end_margin_within_box(children, margins, last, Edge::Right);
}

} // verus!
