//! The nodes of the presentation tree, and how one node is put together from
//! what a widget reports and from the nodes of its children.
use crate::bar::{
    bar_margins, child_transform, end_margin, first_uncollapsed, flow_empty, flow_start,
    footprint, last_uncollapsed, least, lemma_least_step, lemma_occupied_step,
    lemma_weight_sum_positive, lemma_weight_sum_step, occupied, padding_transform, placement,
    margins_at, shape_margins, share, unused_at, weight_sum, weights_positive, Edge, Margins,
};
use crate::matrix::Matrix;
use crate::rational::Rational;
use crate::shape::{Shape, ShapeModel};
use crate::transform::Mat3;
use crate::{
    children_view, shapes_view, Alignment, Child, ChildModel, HorizontalAlignment,
    VerticalAlignment,
};
use vstd::prelude::*;

verus! {

/// The mathematical content of a node: the widget that it stands for, its
/// children with the transform that places each of them in the node, its own
/// shapes, whether it asked to be rebuilt, and its margins.
pub struct NodeModel {
    pub widget: usize,
    pub children: Seq<(Mat3, NodeModel)>,
    pub shapes: Seq<ShapeModel>,
    pub needs_rebuild: bool,
    pub margins: Margins,
}

/// The margins of each of the nodes.
pub open spec fn margins_of(nodes: Seq<NodeModel>) -> Seq<Margins> {
    Seq::new(nodes.len(), |k: int| nodes[k].margins)
}

impl NodeModel {
    /// The node of a widget that reports shapes.
    pub open spec fn leaf(widget: usize, shapes: Seq<ShapeModel>) -> NodeModel {
        NodeModel {
            widget: widget,
            children: Seq::empty(),
            shapes: shapes,
            needs_rebuild: false,
            margins: shape_margins(shapes),
        }
    }

    /// The node of a widget that places its children itself, from the
    /// transforms that it gave and the nodes of the children.
    pub open spec fn placed(widget: usize, transforms: Seq<Mat3>, nodes: Seq<NodeModel>) -> NodeModel {
        NodeModel {
            widget: widget,
            children: Seq::new(nodes.len(), |k: int| (transforms[k], nodes[k])),
            shapes: Seq::empty(),
            needs_rebuild: false,
            margins: Margins::none(),
        }
    }

    /// The node of a widget that reports a bar, from the children that it
    /// named and the nodes of these children.
    pub open spec fn bar(
        widget: usize,
        children: Seq<ChildModel>,
        nodes: Seq<NodeModel>,
        alignment: Alignment,
        vertical: bool,
    ) -> NodeModel {
        NodeModel {
            widget: widget,
            children: Seq::new(
                nodes.len(),
                |k: int|
                    (child_transform(children, margins_of(nodes), alignment, vertical, k), nodes[k]),
            ),
            shapes: Seq::empty(),
            needs_rebuild: false,
            margins: bar_margins(children, margins_of(nodes), vertical),
        }
    }
}

/// One element of the presentation tree.
#[derive(Debug)]
pub struct Node {
    pub(crate) widget: usize,
    pub(crate) children: Vec<(Matrix, Node)>,
    pub(crate) shapes: Vec<Shape>,
    pub(crate) needs_rebuild: bool,
    // empty space around the widget in local coordinates
    pub(crate) empty_top: Rational,
    pub(crate) empty_right: Rational,
    pub(crate) empty_bottom: Rational,
    pub(crate) empty_left: Rational,
}

impl View for Node {
    type V = NodeModel;

    open(crate) spec fn view(&self) -> NodeModel {
        self.model()
    }
}

/// The views of a list of nodes.
pub open spec fn nodes_view(nodes: Seq<Node>) -> Seq<NodeModel> {
    Seq::new(nodes.len(), |k: int| nodes[k]@)
}

/// The transforms of a list of placed widgets.
pub open spec fn transforms_view(transforms: Seq<Matrix>) -> Seq<Mat3> {
    Seq::new(transforms.len(), |k: int| transforms[k]@)
}

/// The sum of the weights of the children, as a number of the layout.
pub(crate) fn total_weight(children: &Vec<Child>) -> (total: Rational)
    ensures
        total@ == weight_sum(children_view(children@)) as real,
{
    let ghost cv = children_view(children@);
    let mut total = Rational::zero();
    let mut k: usize = 0;
    proof {
        assert(cv.take(0) =~= Seq::<ChildModel>::empty());
    }
    while k < children.len()
        invariant
            k <= children.len(),
            cv == children_view(children@),
            total@ == weight_sum(cv.take(k as int)) as real,
        decreases children.len() - k,
    {
        proof {
            lemma_weight_sum_step(cv, k as int);
            let a = weight_sum(cv.take(k as int));
            let b = cv[k as int].weight;
            assert((a + b) as real == a as real + b as real);
        }
        total = total.add(&Rational::from_int(children[k].weight as i64));
        k += 1;
    }
    proof {
        assert(cv.take(children.len() as int) =~= cv);
    }
    total
}

/// The share of the bar that a child is entitled to.
pub(crate) fn share_of(child: &Child, total: &Rational) -> (s: Rational)
    requires
        total@ != 0real,
    ensures
        s@ == share(child@, total@),
{
    Rational::from_int(child.weight as i64).div(total)
}

/// Half of a value.
fn half(value: &Rational) -> (r: Rational)
    ensures
        r@ == value@ / 2real,
{
    value.div(&Rational::from_int(2))
}

/// The length along the flow axis that a child gives up.
fn flow_empty_of(child: &Child, node: &Node, vertical: bool) -> (r: Rational)
    ensures
        r@ == flow_empty(child@, node@.margins, vertical),
{
    if child.collapse {
        if vertical {
            node.empty_top.add(&node.empty_bottom)
        } else {
            node.empty_left.add(&node.empty_right)
        }
    } else {
        Rational::zero()
    }
}

/// The fraction of the bar's flow axis that a child occupies.
fn footprint_of(child: &Child, node: &Node, total: &Rational, vertical: bool) -> (r: Rational)
    requires
        total@ != 0real,
    ensures
        r@ == footprint(child@, node@.margins, total@, vertical),
{
    let rest = Rational::from_int(2).sub(&flow_empty_of(child, node, vertical));
    half(&share_of(child, total).mul(&rest))
}

/// The fraction of the bar's flow axis that all children occupy together.
fn occupied_of(children: &Vec<Child>, nodes: &Vec<Node>, total: &Rational, vertical: bool) -> (r:
    Rational)
    requires
        children.len() == nodes.len(),
        children.len() > 0 ==> total@ != 0real,
    ensures
        r@ == occupied(
            children_view(children@),
            margins_of(nodes_view(nodes@)),
            total@,
            vertical,
        ),
{
    let ghost cv = children_view(children@);
    let ghost mv = margins_of(nodes_view(nodes@));
    let mut sum = Rational::zero();
    let mut k: usize = 0;
    proof {
        assert(cv.take(0) =~= Seq::<ChildModel>::empty());
    }
    while k < children.len()
        invariant
            k <= children.len(),
            children.len() == nodes.len(),
            children.len() > 0 ==> total@ != 0real,
            cv == children_view(children@),
            mv == margins_of(nodes_view(nodes@)),
            sum@ == occupied(cv.take(k as int), mv.take(k as int), total@, vertical),
        decreases children.len() - k,
    {
        proof {
            lemma_occupied_step(cv, mv, total@, vertical, k as int);
        }
        sum = sum.add(&footprint_of(&children[k], &nodes[k], total, vertical));
        k += 1;
    }
    proof {
        assert(cv.take(children.len() as int) =~= cv);
        assert(mv.take(children.len() as int) =~= mv);
    }
    sum
}

/// Where the first child of a bar begins on the flow axis.
fn start_of(alignment: Alignment, vertical: bool, occupied: &Rational) -> (r: Rational)
    ensures
        r@ == flow_start(alignment, vertical, occupied@),
{
    if vertical {
        match alignment.vertical {
            VerticalAlignment::Top => Rational::from_int(-1),
            VerticalAlignment::Center => occupied.neg(),
            VerticalAlignment::Bottom => Rational::one().sub(
                &occupied.mul(&Rational::from_int(2)),
            ),
        }
    } else {
        match alignment.horizontal {
            HorizontalAlignment::Left => Rational::from_int(-1),
            HorizontalAlignment::Center => occupied.neg(),
            HorizontalAlignment::Right => Rational::one().sub(
                &occupied.mul(&Rational::from_int(2)),
            ),
        }
    }
}

/// The transform that shrinks a box by the paddings of a child.
fn padding_matrix(child: &Child) -> (m: Matrix)
    ensures
        m@ == padding_transform(child@),
{
    let inner_position = Matrix::translate(
        half(&child.padding_left.sub(&child.padding_right)),
        half(&child.padding_bottom.sub(&child.padding_top)),
    );
    let inner_scale = Matrix::scale_wh(
        Rational::one().sub(&half(&child.padding_left.add(&child.padding_right))),
        Rational::one().sub(&half(&child.padding_bottom.add(&child.padding_top))),
    );
    inner_position.mul(&inner_scale)
}

/// The transform that places a child in its bar.
fn placement_of(child: &Child, center: Rational, share: Rational, vertical: bool) -> (m: Matrix)
    ensures
        m@ == placement(child@, center@, share@, vertical),
{
    let position_matrix = if vertical {
        Matrix::translate(Rational::zero(), center)
    } else {
        Matrix::translate(center, Rational::zero())
    };
    let scale_matrix = if vertical {
        Matrix::scale_wh(Rational::one(), share)
    } else {
        Matrix::scale_wh(share, Rational::one())
    };
    position_matrix.mul(&scale_matrix).mul(&padding_matrix(child))
}

/// The smallest margin of the children at one edge.
fn least_margin(nodes: &Vec<Node>, edge: Edge) -> (r: Rational)
    ensures
        r@ == least(margins_at(margins_of(nodes_view(nodes@)), edge)),
{
    let ghost values = margins_at(margins_of(nodes_view(nodes@)), edge);
    let mut smallest = Rational::one();
    let mut k: usize = 0;
    proof {
        assert(values.take(0) =~= Seq::<real>::empty());
    }
    while k < nodes.len()
        invariant
            k <= nodes.len(),
            values == margins_at(margins_of(nodes_view(nodes@)), edge),
            smallest@ == least(values.take(k as int)),
        decreases nodes.len() - k,
    {
        let value = nodes[k].margin(edge);
        proof {
            lemma_least_step(values, k as int);
        }
        if k == 0 {
            smallest = value.clone();
        } else {
            smallest = smallest.min(value);
        }
        k += 1;
    }
    proof {
        assert(values.take(nodes.len() as int) =~= values);
    }
    smallest
}

/// The first child that does not collapse; the number of children where
/// there is none.
fn first_uncollapsed_of(children: &Vec<Child>) -> (k: usize)
    ensures
        k == first_uncollapsed(children_view(children@), 0),
        k <= children.len(),
{
    let ghost cv = children_view(children@);
    let mut k: usize = 0;
    while k < children.len() && children[k].collapse
        invariant
            k <= children.len(),
            cv == children_view(children@),
            first_uncollapsed(cv, 0) == first_uncollapsed(cv, k as int),
        decreases children.len() - k,
    {
        assert(cv[k as int].collapse);
        k += 1;
    }
    proof {
        if k < children.len() {
            assert(!cv[k as int].collapse);
        }
    }
    k
}

/// The last child that does not collapse, if there is one.
fn last_uncollapsed_of(children: &Vec<Child>) -> (found: Option<usize>)
    ensures
        match found {
            Some(k) => k == last_uncollapsed(
                children_view(children@),
                children.len() as int,
            ) && k < children.len(),
            None => last_uncollapsed(children_view(children@), children.len() as int) == -1,
        },
{
    let ghost cv = children_view(children@);
    let mut k: usize = children.len();
    while k > 0 && children[k - 1].collapse
        invariant
            k <= children.len(),
            cv == children_view(children@),
            last_uncollapsed(cv, children.len() as int) == last_uncollapsed(cv, k as int),
        decreases k,
    {
        assert(cv[k - 1].collapse);
        k -= 1;
    }
    if k == 0 {
        None
    } else {
        proof {
            assert(!cv[k - 1].collapse);
        }
        Some(k - 1)
    }
}

/// The margin that a bar reports at an end of its flow axis, from the child
/// at the position `at`.
fn end_margin_of(children: &Vec<Child>, nodes: &Vec<Node>, at: usize, edge: Edge, total: &Rational) -> (r:
    Rational)
    requires
        children.len() == nodes.len(),
        at < children.len(),
        total@ == weight_sum(children_view(children@)) as real,
        total@ != 0real,
    ensures
        r@ == end_margin(
            children_view(children@),
            margins_of(nodes_view(nodes@)),
            at as int,
            edge,
        ),
{
    let child = &children[at];
    nodes[at].margin(edge).mul(&share_of(child, total))
}

/// The four margins that a bar reports, in the order top, right, bottom,
/// left.
fn bar_margins_of(children: &Vec<Child>, nodes: &Vec<Node>, total: &Rational, vertical: bool) -> (m: (
    Rational,
    Rational,
    Rational,
    Rational,
))
    requires
        children.len() == nodes.len(),
        children.len() > 0 ==> total@ == weight_sum(children_view(children@)) as real && total@
            != 0real,
    ensures
        (Margins { top: m.0@, right: m.1@, bottom: m.2@, left: m.3@ }) == bar_margins(
            children_view(children@),
            margins_of(nodes_view(nodes@)),
            vertical,
        ),
{
    let first = first_uncollapsed_of(children);
    let last = last_uncollapsed_of(children);
    let near = if vertical {
        Edge::Bottom
    } else {
        Edge::Left
    };
    let far = if vertical {
        Edge::Top
    } else {
        Edge::Right
    };
    let begin = if first < children.len() {
        end_margin_of(children, nodes, first, near, total)
    } else {
        Rational::zero()
    };
    let end = match last {
        Some(k) => end_margin_of(children, nodes, k, far, total),
        None => Rational::zero(),
    };
    if vertical {
        let right = least_margin(nodes, Edge::Right);
        let left = least_margin(nodes, Edge::Left);
        (end, right, begin, left)
    } else {
        let top = least_margin(nodes, Edge::Top);
        let bottom = least_margin(nodes, Edge::Bottom);
        (top, end, bottom, begin)
    }
}

impl Node {
    /// The mathematical content of the node.
    pub open(crate) spec fn model(self) -> NodeModel
        decreases self,
    {
        NodeModel {
            widget: self.widget,
            children: Seq::new(
                self.children@.len(),
                |k: int|
                    if 0 <= k < self.children@.len() {
                        (self.children@[k].0@, self.children@[k].1.model())
                    } else {
                        arbitrary()
                    },
            ),
            shapes: shapes_view(self.shapes@),
            needs_rebuild: self.needs_rebuild,
            margins: Margins {
                top: self.empty_top@,
                right: self.empty_right@,
                bottom: self.empty_bottom@,
                left: self.empty_left@,
            },
        }
    }

    /// The margin of the node at one edge: how much of its box is unused
    /// there.
    pub fn margin(&self, edge: Edge) -> (m: &Rational)
        ensures
            m@ == self@.margins.at(edge),
    {
        match edge {
            Edge::Top => &self.empty_top,
            Edge::Right => &self.empty_right,
            Edge::Bottom => &self.empty_bottom,
            Edge::Left => &self.empty_left,
        }
    }

    /// Whether the node asked to be rebuilt.
    pub fn is_dirty(&self) -> (dirty: bool)
        ensures
            dirty == self@.needs_rebuild,
    {
        self.needs_rebuild
    }

    /// The node of a widget that reports shapes: it has no children, and its
    /// margins are what the shapes leave unused of the unit box.
    pub fn leaf(widget: usize, shapes: Vec<Shape>) -> (node: Node)
        ensures
            node@ == NodeModel::leaf(widget, shapes_view(shapes@)),
    {
        let ghost sv = shapes_view(shapes@);
        let mut empty_top = Rational::one();
        let mut empty_right = Rational::one();
        let mut empty_bottom = Rational::one();
        let mut empty_left = Rational::one();
        let mut k: usize = 0;
        proof {
            assert(unused_at(sv, Edge::Top).take(0) =~= Seq::<real>::empty());
            assert(unused_at(sv, Edge::Right).take(0) =~= Seq::<real>::empty());
            assert(unused_at(sv, Edge::Bottom).take(0) =~= Seq::<real>::empty());
            assert(unused_at(sv, Edge::Left).take(0) =~= Seq::<real>::empty());
        }
        while k < shapes.len()
            invariant
                k <= shapes.len(),
                sv == shapes_view(shapes@),
                empty_top@ == least(unused_at(sv, Edge::Top).take(k as int)),
                empty_right@ == least(unused_at(sv, Edge::Right).take(k as int)),
                empty_bottom@ == least(unused_at(sv, Edge::Bottom).take(k as int)),
                empty_left@ == least(unused_at(sv, Edge::Left).take(k as int)),
            decreases shapes.len() - k,
        {
            let (t, r, b, l) = shapes[k].get_bounding_box();
            let t = Rational::one().sub(&t);
            let r = Rational::one().sub(&r);
            let b = b.add(&Rational::one());
            let l = l.add(&Rational::one());
            proof {
                lemma_least_step(unused_at(sv, Edge::Top), k as int);
                lemma_least_step(unused_at(sv, Edge::Right), k as int);
                lemma_least_step(unused_at(sv, Edge::Bottom), k as int);
                lemma_least_step(unused_at(sv, Edge::Left), k as int);
            }
            if k == 0 {
                empty_top = t;
                empty_right = r;
                empty_bottom = b;
                empty_left = l;
            } else {
                empty_top = empty_top.min(&t);
                empty_right = empty_right.min(&r);
                empty_bottom = empty_bottom.min(&b);
                empty_left = empty_left.min(&l);
            }
            k += 1;
        }
        proof {
            let n = shapes.len() as int;
            assert(unused_at(sv, Edge::Top).take(n) =~= unused_at(sv, Edge::Top));
            assert(unused_at(sv, Edge::Right).take(n) =~= unused_at(sv, Edge::Right));
            assert(unused_at(sv, Edge::Bottom).take(n) =~= unused_at(sv, Edge::Bottom));
            assert(unused_at(sv, Edge::Left).take(n) =~= unused_at(sv, Edge::Left));
        }
        let node = Node {
            widget: widget,
            children: Vec::new(),
            shapes: shapes,
            needs_rebuild: false,
            empty_top: empty_top,
            empty_right: empty_right,
            empty_bottom: empty_bottom,
            empty_left: empty_left,
        };
        proof {
            assert(node@.children =~= Seq::empty());
        }
        node
    }

    /// The node of a widget that places its children itself: each child
    /// comes with the transform that the widget gave for it.
    pub fn placed(widget: usize, children: Vec<(Matrix, Node)>) -> (node: Node)
        ensures
            node@ == NodeModel::placed(
                widget,
                Seq::new(children@.len(), |k: int| children@[k].0@),
                Seq::new(children@.len(), |k: int| children@[k].1@),
            ),
    {
        let node = Node {
            widget: widget,
            children: children,
            shapes: Vec::new(),
            needs_rebuild: false,
            empty_top: Rational::zero(),
            empty_right: Rational::zero(),
            empty_bottom: Rational::zero(),
            empty_left: Rational::zero(),
        };
        proof {
            assert(node@.children =~= NodeModel::placed(
                widget,
                Seq::new(children@.len(), |k: int| children@[k].0@),
                Seq::new(children@.len(), |k: int| children@[k].1@),
            ).children);
            assert(node@.shapes =~= Seq::empty());
        }
        node
    }

    /// The node of a widget that reports a bar, from the children that it
    /// named and the nodes that these children resolved to.
    ///
    /// Every child occupies its share of the flow axis, less what it leaves
    /// unused there if it collapses. The children follow each other without a
    /// gap between what they occupy, and the group is aligned as `alignment`
    /// says.
    pub fn arrange(
        widget: usize,
        children: Vec<Child>,
        nodes: Vec<Node>,
        alignment: Alignment,
        vertical: bool,
    ) -> (node: Node)
        requires
            children.len() == nodes.len(),
            weights_positive(children_view(children@)),
        ensures
            node@ == NodeModel::bar(
                widget,
                children_view(children@),
                nodes_view(nodes@),
                alignment,
                vertical,
            ),
    {
        let ghost cv = children_view(children@);
        let ghost nv = nodes_view(nodes@);
        let ghost mv = margins_of(nv);
        let total = total_weight(&children);
        proof {
            lemma_weight_sum_positive(cv);
        }
        let (my_empty_top, my_empty_right, my_empty_bottom, my_empty_left) = bar_margins_of(
            &children,
            &nodes,
            &total,
            vertical,
        );
        let whole = occupied_of(&children, &nodes, &total, vertical);
        let flow_start_border_position = start_of(alignment, vertical, &whole);
        let mut placed: Vec<(Matrix, Node)> = Vec::new();
        let mut before = Rational::zero();
        let mut k: usize = 0;
        proof {
            assert(cv.take(0) =~= Seq::<ChildModel>::empty());
        }
        for node in it: nodes.into_iter()
            invariant
                k == it.index(),
                it.seq() == nodes@,
                children.len() == nodes.len(),
                cv == children_view(children@),
                nv == nodes_view(nodes@),
                mv == margins_of(nv),
                total@ == weight_sum(cv) as real,
                children.len() > 0 ==> total@ != 0real,
                flow_start_border_position@ == flow_start(
                    alignment,
                    vertical,
                    occupied(cv, mv, total@, vertical),
                ),
                before@ == occupied(cv.take(k as int), mv.take(k as int), total@, vertical),
                placed@.len() == k,
                forall|j: int|
                    0 <= j < k ==> (#[trigger] placed@[j]).0@ == child_transform(
                        cv,
                        mv,
                        alignment,
                        vertical,
                        j,
                    ) && placed@[j].1@ == nv[j],
        {
            let child = &children[k];
            let flow_percent = footprint_of(child, &node, &total, vertical);
            let begin = flow_start_border_position.add(&before.mul(&Rational::from_int(2)));
            let flow_center_position = begin.add(&flow_percent);
            let total_matrix = placement_of(
                child,
                flow_center_position,
                share_of(child, &total),
                vertical,
            );
            proof {
                lemma_occupied_step(cv, mv, total@, vertical, k as int);
            }
            before = before.add(&flow_percent);
            placed.push((total_matrix, node));
            k += 1;
        }
        let node = Node {
            widget: widget,
            children: placed,
            shapes: Vec::new(),
            needs_rebuild: false,
            empty_top: my_empty_top,
            empty_right: my_empty_right,
            empty_bottom: my_empty_bottom,
            empty_left: my_empty_left,
        };
        proof {
            let target = NodeModel::bar(widget, cv, nv, alignment, vertical);
            assert(node@.children =~= target.children);
            assert(node@.shapes =~= Seq::empty());
        }
        node
    }
}

} // verus!
