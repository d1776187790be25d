//! Flattening the tree of nodes into the list of shapes to draw.
use crate::matrix::Matrix;
use crate::node::{Node, NodeModel};
use crate::shape::{Shape, ShapeModel};
use crate::shapes_view;
use crate::transform::Mat3;
use vstd::prelude::*;

verus! {

/// The shapes as seen from outside a frame that `m` places.
pub open spec fn seen_through(shapes: Seq<ShapeModel>, m: Mat3) -> Seq<ShapeModel> {
    Seq::new(shapes.len(), |k: int| shapes[k].apply_matrix(m))
}

/// The shapes of a node and of everything below it, in the coordinates of
/// the node: first those of the children, in their order, then its own. A
/// later shape may hide an earlier one.
pub open spec fn flatten(node: NodeModel) -> Seq<ShapeModel>
    decreases node, node.children.len() + 1,
{
    flatten_children(node, node.children.len()) + node.shapes
}

/// The shapes of the first `upto` children of a node, in the coordinates of
/// the node.
pub open spec fn flatten_children(node: NodeModel, upto: nat) -> Seq<ShapeModel>
    decreases node, upto,
{
    if upto == 0 || upto > node.children.len() {
        Seq::empty()
    } else {
        flatten_children(node, (upto - 1) as nat) + seen_through(
            flatten(node.children[upto - 1].1),
            node.children[upto - 1].0,
        )
    }
}

/// Appends the shapes to the list, as seen from outside a frame that `m`
/// places.
fn append_seen_through(result: &mut Vec<Shape>, shapes: Vec<Shape>, m: &Matrix)
    ensures
        shapes_view(final(result)@) == shapes_view(old(result)@) + seen_through(
            shapes_view(shapes@),
            m@,
        ),
{
    let ghost target = seen_through(shapes_view(shapes@), m@);
    let ghost start = shapes_view(result@);
    let mut k: usize = 0;
    proof {
        assert(target.take(0) =~= Seq::<ShapeModel>::empty());
        assert(start + Seq::<ShapeModel>::empty() =~= start);
    }
    for s in it: shapes.into_iter()
        invariant
            k == it.index(),
            it.seq() == shapes@,
            target == seen_through(shapes_view(shapes@), m@),
            shapes_view(result@) == start + target.take(k as int),
    {
        assert(k < shapes.len());
        let ghost before = shapes_view(result@);
        let moved = s.apply_matrix(m);
        result.push(moved);
        proof {
            assert(shapes_view(result@) =~= before.push(moved@));
            assert(target.take(k + 1) =~= target.take(k as int).push(target[k as int]));
            assert(start + target.take(k + 1) =~= (start + target.take(k as int)).push(
                target[k as int],
            ));
        }
        k += 1;
    }
    proof {
        assert(target.take(k as int) =~= target);
    }
}

/// Appends a copy of each shape to the list.
fn append_copies(result: &mut Vec<Shape>, shapes: &Vec<Shape>)
    ensures
        shapes_view(final(result)@) == shapes_view(old(result)@) + shapes_view(shapes@),
{
    let ghost target = shapes_view(shapes@);
    let ghost start = shapes_view(result@);
    let mut k: usize = 0;
    proof {
        assert(target.take(0) =~= Seq::<ShapeModel>::empty());
        assert(start + Seq::<ShapeModel>::empty() =~= start);
    }
    while k < shapes.len()
        invariant
            k <= shapes.len(),
            target == shapes_view(shapes@),
            shapes_view(result@) == start + target.take(k as int),
        decreases shapes.len() - k,
    {
        let ghost before = shapes_view(result@);
        let copy = shapes[k].clone();
        result.push(copy);
        proof {
            assert(shapes_view(result@) =~= before.push(copy@));
            assert(target.take(k + 1) =~= target.take(k as int).push(target[k as int]));
            assert(start + target.take(k + 1) =~= (start + target.take(k as int)).push(
                target[k as int],
            ));
        }
        k += 1;
    }
    proof {
        assert(target.take(k as int) =~= target);
    }
}

impl Node {
    /// The shapes of the node and of everything below it, in the coordinates
    /// of the node, from bottom to top.
    pub fn build_shapes(&self) -> (result: Vec<Shape>)
        ensures
            shapes_view(result@) == flatten(self@),
        decreases self,
    {
        let mut result: Vec<Shape> = Vec::new();
        let mut i: usize = 0;
        proof {
            assert(shapes_view(result@) =~= Seq::<ShapeModel>::empty());
        }
        while i < self.children.len()
            invariant
                i <= self.children.len(),
                shapes_view(result@) == flatten_children(self@, i as nat),
            decreases self.children.len() - i,
        {
            let m = &self.children[i].0;
            let c = &self.children[i].1;
            let inner = c.build_shapes();
            append_seen_through(&mut result, inner, m);
            i += 1;
        }
        append_copies(&mut result, &self.shapes);
        result
    }
}

} // verus!
