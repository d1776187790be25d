//! How the content of the children of a collapsing bar meets.
use crate::bar::{
    child_begin, child_center, child_transform, flow_empty, footprint, lemma_occupied_step,
    padding_transform, placement, share, weight_sum, Margins,
};
use crate::transform::{Mat3, Vec3};
use crate::{Alignment, ChildModel};
use vstd::prelude::*;

verus! {

/// Whether a child has no padding at any edge.
pub open spec fn unpadded(c: ChildModel) -> bool {
    c.padding_top == 0real && c.padding_right == 0real && c.padding_bottom == 0real
        && c.padding_left == 0real
}

/// The margin at the end of the flow axis where the flow begins: the left
/// one in a horizontal bar, the bottom one in a vertical bar.
pub open spec fn near_margin(m: Margins, vertical: bool) -> real {
    if vertical {
        m.bottom
    } else {
        m.left
    }
}

/// The margin at the end of the flow axis where the flow ends.
pub open spec fn far_margin(m: Margins, vertical: bool) -> real {
    if vertical {
        m.top
    } else {
        m.right
    }
}

/// The point on the flow axis of the bar to which the transform `t` of a
/// child takes the point `along` on the flow axis of the child.
pub open spec fn image_along(t: Mat3, vertical: bool, along: real) -> real {
    if vertical {
        t.apply(Vec3 { x: 0real, y: along, z: 1real }).y
    } else {
        t.apply(Vec3 { x: along, y: 0real, z: 1real }).x
    }
}

proof fn lemma_unpadded_placement(c: ChildModel, center: real, part: real, vertical: bool, along: real)
    requires
        unpadded(c),
    ensures
        image_along(placement(c, center, part, vertical), vertical, along) == center + part
            * along,
{
    let padding = padding_transform(c);
    assert(padding == Mat3::identity());
    let position = if vertical {
        Mat3::translate(0real, center)
    } else {
        Mat3::translate(center, 0real)
    };
    let scale = if vertical {
        Mat3::scale_wh(1real, part)
    } else {
        Mat3::scale_wh(part, 1real)
    };
    crate::transform::lemma_mul_identity(position.mul(scale));
    assert(placement(c, center, part, vertical) == position.mul(scale));
}

proof fn lemma_centered_footprint(part: real, margin: real)
    ensures
        part * (2real - (margin + margin)) / 2real == part * (1real - margin),
{
    assert(part * (2real - (margin + margin)) == (part * (1real - margin)) * 2real)
        by (nonlinear_arith);
}

/// Collapse packing. Where two children that follow each other in a bar both
/// collapse, have no paddings, and each leave as much unused at the one end
/// of the flow axis as at the other, the content of the first ends exactly
/// where the content of the second begins.
pub proof fn lemma_collapsed_neighbours_touch(
    children: Seq<ChildModel>,
    margins: Seq<Margins>,
    alignment: Alignment,
    vertical: bool,
    k: int,
)
    requires
        children.len() == margins.len(),
        0 <= k,
        k + 1 < children.len(),
        children[k].collapse && children[k + 1].collapse,
        unpadded(children[k]) && unpadded(children[k + 1]),
        near_margin(margins[k], vertical) == far_margin(margins[k], vertical),
        near_margin(margins[k + 1], vertical) == far_margin(margins[k + 1], vertical),
    ensures
        image_along(
            child_transform(children, margins, alignment, vertical, k),
            vertical,
            1real - far_margin(margins[k], vertical),
        ) == image_along(
            child_transform(children, margins, alignment, vertical, k + 1),
            vertical,
            -1real + near_margin(margins[k + 1], vertical),
        ),
{
    let total = weight_sum(children) as real;
    let first = children[k];
    let second = children[k + 1];
    let first_part = share(first, total);
    let second_part = share(second, total);
    let first_margin = far_margin(margins[k], vertical);
    let second_margin = near_margin(margins[k + 1], vertical);
    lemma_unpadded_placement(
        first,
        child_center(children, margins, alignment, vertical, k),
        first_part,
        vertical,
        1real - first_margin,
    );
    lemma_unpadded_placement(
        second,
        child_center(children, margins, alignment, vertical, k + 1),
        second_part,
        vertical,
        -1real + second_margin,
    );
    lemma_occupied_step(children, margins, total, vertical, k);
    lemma_centered_footprint(first_part, first_margin);
    lemma_centered_footprint(second_part, second_margin);
    assert(flow_empty(first, margins[k], vertical) == first_margin + first_margin);
    assert(flow_empty(second, margins[k + 1], vertical) == second_margin + second_margin);
    assert(footprint(first, margins[k], total, vertical) == first_part * (1real - first_margin));
    assert(footprint(second, margins[k + 1], total, vertical) == second_part * (1real
        - second_margin));
    assert(child_begin(children, margins, alignment, vertical, k + 1) == child_begin(
        children,
        margins,
        alignment,
        vertical,
        k,
    ) + footprint(first, margins[k], total, vertical) * 2real);
    assert(second_part * (-1real + second_margin) == -(second_part * (1real - second_margin)))
        by (nonlinear_arith);
}

} // verus!
