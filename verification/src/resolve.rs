//! Resolving widgets into nodes.
//!
//! A widget is resolved by asking it for its layout, resolving the children
//! that the layout names, each in the box that the layout gives it, and
//! putting the node together from the results. A child has to be stored
//! behind the widget that names it, so no widget can contain itself.
use crate::bar::{child_ratio, lemma_weight_sum_positive, share, weight_sum, weights_positive};
use crate::matrix::Matrix;
use crate::node::{nodes_view, share_of, total_weight, Node, NodeModel};
use crate::rational::Rational;
use crate::transform::Mat3;
use crate::widgets::Widgets;
use crate::{
    children_view, Alignment, Child, ChildModel, HorizontalAlignment, Layout, LayoutError,
    LayoutModel, VerticalAlignment, Widget,
};
use vstd::prelude::*;

verus! {

/// A child to resolve: which widget, in a box of which ratio of height to
/// width, and with which alignment as a hint.
pub struct Request {
    pub widget: usize,
    pub ratio: real,
    pub alignment: Alignment,
}

/// Whether the widget `child` may be named by the widget `parent`, among
/// `len` widgets: it is one of them and stored behind the parent.
pub open spec fn in_place(child: usize, parent: usize, len: nat) -> bool {
    parent < child && child < len
}

/// The children of a widget that places them itself: each is resolved in the
/// widget's own box, centered.
pub open spec fn placed_requests(list: Seq<(Mat3, usize)>, ratio: real) -> Seq<Request> {
    Seq::new(
        list.len(),
        |k: int| Request { widget: list[k].1, ratio: ratio, alignment: Alignment::centered() },
    )
}

/// The children of a bar: each is resolved in its share of the bar, with the
/// alignment that the bar names for it.
pub open spec fn bar_requests(children: Seq<ChildModel>, ratio: real, vertical: bool) -> Seq<
    Request,
> {
    Seq::new(
        children.len(),
        |k: int|
            Request {
                widget: children[k].child,
                ratio: child_ratio(ratio, children[k], weight_sum(children) as real, vertical),
                alignment: children[k].alignment,
            },
    )
}

/// The transforms that a widget gave for the children that it places.
pub open spec fn placed_transforms(list: Seq<(Mat3, usize)>) -> Seq<Mat3> {
    Seq::new(list.len(), |k: int| list[k].0)
}

/// The alignment of a horizontal bar.
pub open spec fn along_width(alignment: HorizontalAlignment) -> Alignment {
    Alignment { horizontal: alignment, vertical: VerticalAlignment::Center }
}

/// The alignment of a vertical bar.
pub open spec fn along_height(alignment: VerticalAlignment) -> Alignment {
    Alignment { horizontal: HorizontalAlignment::Center, vertical: alignment }
}

/// The node that the widget `id` resolves to in a box whose ratio of height
/// to width is `ratio`, or the first fault that is met on the way.
pub open spec fn resolve<W: Widget>(ws: Seq<W>, id: usize, ratio: real, alignment: Alignment) -> Result<
    NodeModel,
    LayoutError,
>
    decreases ws.len() - id, 2nat, 0nat,
{
    if id >= ws.len() {
        Err(LayoutError::MisplacedChild)
    } else {
        resolve_layout(ws, id, ratio, ws[id as int].layout(ratio, alignment))
    }
}

/// The node of the widget `id`, from the layout that it reported.
pub open spec fn resolve_layout<W: Widget>(
    ws: Seq<W>,
    id: usize,
    ratio: real,
    layout: LayoutModel,
) -> Result<NodeModel, LayoutError>
    decreases ws.len() - id, 1nat, 0nat,
{
    if id >= ws.len() {
        Err(LayoutError::MisplacedChild)
    } else {
        match layout {
            LayoutModel::AbsolutePositionned(list) => match resolve_all(
                ws,
                id,
                placed_requests(list, ratio),
            ) {
                Ok(nodes) => Ok(NodeModel::placed(id, placed_transforms(list), nodes)),
                Err(e) => Err(e),
            },
            LayoutModel::HorizontalBar { alignment, children } => if !weights_positive(children) {
                Err(LayoutError::WeightBelowOne)
            } else {
                match resolve_all(ws, id, bar_requests(children, ratio, false)) {
                    Ok(nodes) => Ok(
                        NodeModel::bar(id, children, nodes, along_width(alignment), false),
                    ),
                    Err(e) => Err(e),
                }
            },
            LayoutModel::VerticalBar { alignment, children } => if !weights_positive(children) {
                Err(LayoutError::WeightBelowOne)
            } else {
                match resolve_all(ws, id, bar_requests(children, ratio, true)) {
                    Ok(nodes) => Ok(
                        NodeModel::bar(id, children, nodes, along_height(alignment), true),
                    ),
                    Err(e) => Err(e),
                }
            },
            LayoutModel::Shapes(shapes) => Ok(NodeModel::leaf(id, shapes)),
        }
    }
}

/// The nodes of the children that the widget `parent` names, in their order,
/// or the first fault: a child that is out of place, or a fault in resolving
/// a child.
pub open spec fn resolve_all<W: Widget>(ws: Seq<W>, parent: usize, requests: Seq<Request>) -> Result<
    Seq<NodeModel>,
    LayoutError,
>
    decreases ws.len() - parent, 0nat, requests.len(),
{
    if requests.len() == 0 {
        Ok(Seq::empty())
    } else {
        match resolve_all(ws, parent, requests.drop_last()) {
            Err(e) => Err(e),
            Ok(nodes) => {
                let last = requests.last();
                if !in_place(last.widget, parent, ws.len()) {
                    Err(LayoutError::MisplacedChild)
                } else {
                    match resolve(ws, last.widget, last.ratio, last.alignment) {
                        Err(e) => Err(e),
                        Ok(node) => Ok(nodes.push(node)),
                    }
                }
            },
        }
    }
}

/// A fault among the first children is the fault of the whole list.
proof fn lemma_fault_stays<W: Widget>(ws: Seq<W>, parent: usize, requests: Seq<Request>, k: int)
    requires
        0 <= k <= requests.len(),
        resolve_all(ws, parent, requests.take(k)) is Err,
    ensures
        resolve_all(ws, parent, requests) == resolve_all(ws, parent, requests.take(k)),
    decreases requests.len() - k,
{
    if k == requests.len() {
        assert(requests.take(k) =~= requests);
    } else {
        assert(requests.take(k + 1).drop_last() =~= requests.take(k));
        lemma_fault_stays(ws, parent, requests, k + 1);
    }
}

/// Whether every child has a weight of at least one.
fn has_positive_weights(children: &Vec<Child>) -> (ok: bool)
    ensures
        ok == weights_positive(children_view(children@)),
{
    let mut k: usize = 0;
    while k < children.len()
        invariant
            k <= children.len(),
            forall|j: int| 0 <= j < k ==> (#[trigger] children_view(children@)[j]).weight >= 1,
        decreases children.len() - k,
    {
        if children[k].weight < 1 {
            assert(children_view(children@)[k as int].weight < 1);
            return false;
        }
        k += 1;
    }
    true
}

proof fn lemma_share_not_zero(weight: int, total: real)
    requires
        weight >= 1,
        total > 0real,
    ensures
        weight as real / total != 0real,
{
    let w = weight as real;
    assert(w / total != 0real) by (nonlinear_arith)
        requires
            w >= 1real,
            total > 0real,
    ;
}

/// The ratio of height to width of the box of a child of a bar.
fn child_ratio_of(ratio: &Rational, child: &Child, total: &Rational, vertical: bool) -> (r: Rational)
    requires
        child.weight >= 1,
        total@ > 0real,
    ensures
        r@ == child_ratio(ratio@, child@, total@, vertical),
{
    let part = share_of(child, total);
    if vertical {
        ratio.mul(&part)
    } else {
        proof {
            lemma_share_not_zero(child.weight as int, total@);
        }
        ratio.div(&part)
    }
}

impl Node {
    /// Resolves the widget `id` into a node, in a box whose ratio of height
    /// to width is `my_height_per_width`.
    #[verifier::loop_isolation(false)]
    pub fn new<W: Widget>(
        widgets: &Widgets<W>,
        id: usize,
        my_height_per_width: &Rational,
        alignment: Alignment,
    ) -> (result: Result<Node, LayoutError>)
        ensures
            match result {
                Ok(node) => resolve(widgets@, id, my_height_per_width@, alignment) == Ok::<
                    NodeModel,
                    LayoutError,
                >(node@),
                Err(e) => resolve(widgets@, id, my_height_per_width@, alignment) == Err::<
                    NodeModel,
                    LayoutError,
                >(e),
            },
        decreases widgets@.len() - id, 2nat,
    {
        let widget = match widgets.get(id) {
            Some(widget) => widget,
            None => {
                return Err(LayoutError::MisplacedChild);
            },
        };
        let layout = widget.build_layout(my_height_per_width, alignment);
        match layout {
            Layout::AbsolutePositionned(list) => {
                let ghost lv = crate::placed_view(list@);
                let ghost requests = placed_requests(lv, my_height_per_width@);
                let children_alignment = Alignment {
                    horizontal: HorizontalAlignment::Center,
                    vertical: VerticalAlignment::Center,
                };
                let mut new_children: Vec<(Matrix, Node)> = Vec::new();
                let mut k: usize = 0;
                proof {
                    assert(requests.take(0) =~= Seq::<Request>::empty());
                    assert(Seq::new(0nat, |j: int| new_children@[j].1@) =~= Seq::<
                        NodeModel,
                    >::empty());
                }
                for item in it: list.into_iter()
                    invariant
                        k == it.index(),
                        it.seq() == list@,
                        id < widgets@.len(),
                        lv == crate::placed_view(list@),
                        requests == placed_requests(lv, my_height_per_width@),
                        children_alignment == Alignment::centered(),
                        new_children@.len() == k,
                        resolve_all(widgets@, id, requests.take(k as int)) == Ok::<
                            Seq<NodeModel>,
                            LayoutError,
                        >(Seq::new(k as nat, |j: int| new_children@[j].1@)),
                        forall|j: int| 0 <= j < k ==> (#[trigger] new_children@[j]).0@ == lv[j].0,
                {
                    let (m, w) = item;
                    proof {
                        assert(requests.take(k + 1).drop_last() =~= requests.take(k as int));
                        assert(requests.take(k + 1).last() == requests[k as int]);
                    }
                    if !(id < w && widgets.holds(w)) {
                        proof {
                            lemma_fault_stays(widgets@, id, requests, k + 1);
                        }
                        return Err(LayoutError::MisplacedChild);
                    }
                    match Node::new(widgets, w, my_height_per_width, children_alignment) {
                        Err(e) => {
                            proof {
                                lemma_fault_stays(widgets@, id, requests, k + 1);
                            }
                            return Err(e);
                        },
                        Ok(node) => {
                            let ghost before = Seq::new(k as nat, |j: int| new_children@[j].1@);
                            new_children.push((m, node));
                            assert(new_children.len() == k + 1);
                            proof {
                                assert(Seq::new((k + 1) as nat, |j: int| new_children@[j].1@)
                                    =~= before.push(node@));
                            }
                        },
                    }
                    k += 1;
                }
                proof {
                    assert(requests.take(k as int) =~= requests);
                }
                let node = Node::placed(id, new_children);
                proof {
                    let nodes = Seq::new(k as nat, |j: int| new_children@[j].1@);
                    assert(Seq::new(new_children@.len(), |j: int| new_children@[j].0@)
                        =~= placed_transforms(lv));
                    assert(Seq::new(new_children@.len(), |j: int| new_children@[j].1@) =~= nodes);
                }
                Ok(node)
            },
            Layout::HorizontalBar { alignment, children } => {
                Node::with_layout(
                    widgets,
                    id,
                    children,
                    Alignment { horizontal: alignment, vertical: VerticalAlignment::Center },
                    false,
                    my_height_per_width,
                )
            },
            Layout::VerticalBar { alignment, children } => {
                Node::with_layout(
                    widgets,
                    id,
                    children,
                    Alignment { horizontal: HorizontalAlignment::Center, vertical: alignment },
                    true,
                    my_height_per_width,
                )
            },
            Layout::Shapes(shapes) => Ok(Node::leaf(id, shapes)),
        }
    }

    /// Resolves the children of a bar and arranges them. In this function,
    /// the word "flow" designates the dimension that is being operated and
    /// "perpendicular" designates the other dimension. If `vertical` is true,
    /// then the flow is the y dimension and the perpendicular dimension is x.
    #[verifier::loop_isolation(false)]
    pub fn with_layout<W: Widget>(
        widgets: &Widgets<W>,
        id: usize,
        children: Vec<Child>,
        alignment: Alignment,
        vertical: bool,
        my_height_per_width: &Rational,
    ) -> (result: Result<Node, LayoutError>)
        ensures
            match result {
                Ok(node) => bar_outcome(
                    widgets@,
                    id,
                    my_height_per_width@,
                    children_view(children@),
                    alignment,
                    vertical,
                ) == Ok::<NodeModel, LayoutError>(node@),
                Err(e) => bar_outcome(
                    widgets@,
                    id,
                    my_height_per_width@,
                    children_view(children@),
                    alignment,
                    vertical,
                ) == Err::<NodeModel, LayoutError>(e),
            },
        decreases widgets@.len() - id, 1nat,
    {
        let ghost cv = children_view(children@);
        let ghost requests = bar_requests(cv, my_height_per_width@, vertical);
        if !has_positive_weights(&children) {
            return Err(LayoutError::WeightBelowOne);
        }
        // the first step is to build the children nodes
        let total = total_weight(&children);
        proof {
            lemma_weight_sum_positive(cv);
            assert(requests.take(0) =~= Seq::<Request>::empty());
        }
        let mut nodes: Vec<Node> = Vec::new();
        proof {
            assert(nodes_view(nodes@) =~= Seq::<NodeModel>::empty());
        }
        let mut k: usize = 0;
        while k < children.len()
            invariant
                k <= children.len(),
                cv == children_view(children@),
                weights_positive(cv),
                requests == bar_requests(cv, my_height_per_width@, vertical),
                total@ == weight_sum(cv) as real,
                weight_sum(cv) >= cv.len(),
                nodes@.len() == k,
                resolve_all(widgets@, id, requests.take(k as int)) == Ok::<
                    Seq<NodeModel>,
                    LayoutError,
                >(nodes_view(nodes@)),
            decreases children.len() - k,
        {
            let child = &children[k];
            proof {
                assert(requests.take(k + 1).drop_last() =~= requests.take(k as int));
                assert(requests.take(k + 1).last() == requests[k as int]);
                assert(cv[k as int] == child@);
                assert(cv[k as int].weight >= 1);
            }
            if !(id < child.child && widgets.holds(child.child)) {
                proof {
                    lemma_fault_stays(widgets@, id, requests, k + 1);
                }
                return Err(LayoutError::MisplacedChild);
            }
            // calculating the height per width of the child
            let height_per_width = child_ratio_of(my_height_per_width, child, &total, vertical);
            // building its node
            match Node::new(widgets, child.child, &height_per_width, child.alignment) {
                Err(e) => {
                    proof {
                        lemma_fault_stays(widgets@, id, requests, k + 1);
                    }
                    return Err(e);
                },
                Ok(node) => {
                    let ghost before = nodes_view(nodes@);
                    nodes.push(node);
                    proof {
                        assert(nodes_view(nodes@) =~= before.push(node@));
                    }
                },
            }
            k += 1;
        }
        proof {
            assert(requests.take(k as int) =~= requests);
        }
        Ok(Node::arrange(id, children, nodes, alignment, vertical))
    }
}

/// The node of a widget that reports a bar with the given children, or the
/// first fault: a weight below one, a child that is out of place, or a fault
/// in resolving a child.
pub open spec fn bar_outcome<W: Widget>(
    ws: Seq<W>,
    id: usize,
    ratio: real,
    children: Seq<ChildModel>,
    alignment: Alignment,
    vertical: bool,
) -> Result<NodeModel, LayoutError> {
    if !weights_positive(children) {
        Err(LayoutError::WeightBelowOne)
    } else {
        match resolve_all(ws, id, bar_requests(children, ratio, vertical)) {
            Ok(nodes) => Ok(NodeModel::bar(id, children, nodes, alignment, vertical)),
            Err(e) => Err(e),
        }
    }
}

} // verus!
