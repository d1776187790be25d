//! What travels through the tree of nodes: the question whether anything
//! needs a rebuild, and the events that the cursor causes.
//!
//! Both walks visit the children of a node before the node itself, and the
//! children in their order. Both change the widgets on their way, so each is
//! described by a function from the tree and the widgets before the walk to
//! the tree, the widgets and the result after it. A node whose widget is not
//! among the widgets is passed over: it is never stale, and an event for it
//! goes on to its parent.
use crate::matrix::Matrix;
use crate::node::{Node, NodeModel};
use crate::predefined::{MouseClick, MouseEnterEvent, MouseLeaveEvent};
use crate::rational::Rational;
use crate::shape::{covers, point_view, Point, ShapeModel};
use crate::transform::Mat3;
use crate::widgets::Widgets;
use crate::{Event, EventOutcomeModel, Widget};
use vstd::prelude::*;

verus! {

/// The node with its request for a rebuild set or cleared.
pub open spec fn with_flag(node: NodeModel, flag: bool) -> NodeModel {
    NodeModel { needs_rebuild: flag, ..node }
}

/// The node with child `k` replaced, under the transform that it had.
pub open spec fn with_child(node: NodeModel, k: int, child: NodeModel) -> NodeModel {
    NodeModel { children: node.children.update(k, (node.children[k].0, child)), ..node }
}

/// The state after the search for something that needs a rebuild.
pub struct Sweep<W> {
    pub node: NodeModel,
    pub widgets: Seq<W>,
    /// Whether the search found a node or a widget that asks for a rebuild.
    pub found: bool,
}

/// The state after events were delivered.
pub struct Dispatch<W> {
    pub node: NodeModel,
    pub widgets: Seq<W>,
    /// The events that go on to the parent of the node, in their order.
    pub events: Seq<Event>,
}

/// The state after the children of a node were visited.
pub struct Gathered<W> {
    pub node: NodeModel,
    pub widgets: Seq<W>,
    /// The events that the children passed on, each with the position of the
    /// child that it came from.
    pub forwarded: Seq<(Event, usize)>,
}

/// The search for something that needs a rebuild, which ends at the first
/// find. A node that asked for a rebuild is found, and its request is
/// cleared; else its widget is asked and is found if it is stale; else the
/// children are searched.
pub open spec fn scan<W: Widget>(node: NodeModel, ws: Seq<W>) -> Sweep<W>
    decreases node, node.children.len() + 1,
{
    if node.needs_rebuild {
        Sweep { node: with_flag(node, false), widgets: ws, found: true }
    } else if node.widget < ws.len() {
        let widget = ws[node.widget as int];
        let asked = ws.update(node.widget as int, widget.polled());
        if widget.stale() {
            Sweep { node: node, widgets: asked, found: true }
        } else {
            scan_children(node, asked, node.children.len())
        }
    } else {
        scan_children(node, ws, node.children.len())
    }
}

/// The search through the first `upto` children of a node.
pub open spec fn scan_children<W: Widget>(node: NodeModel, ws: Seq<W>, upto: nat) -> Sweep<W>
    decreases node, upto,
{
    if upto == 0 || upto > node.children.len() {
        Sweep { node: node, widgets: ws, found: false }
    } else {
        let before = scan_children(node, ws, (upto - 1) as nat);
        if before.found {
            before
        } else {
            let below = scan(node.children[upto - 1].1, before.widgets);
            Sweep {
                node: with_child(before.node, upto - 1, below.node),
                widgets: below.widgets,
                found: below.found,
            }
        }
    }
}

/// What the widget of a node answers to an event; a node without a widget
/// lets the event pass.
pub open spec fn answer<W: Widget>(
    node: NodeModel,
    ws: Seq<W>,
    event: Event,
    source_child: Option<usize>,
) -> EventOutcomeModel {
    if node.widget < ws.len() {
        ws[node.widget as int].outcome(event, source_child)
    } else {
        EventOutcomeModel::ignored()
    }
}

/// One event is delivered to the widget of a node. The node asks for a
/// rebuild if the widget wants its layout refreshed. The events for the
/// parent are those that the widget adds, then the event itself unless the
/// widget keeps it.
pub open spec fn send<W: Widget>(
    node: NodeModel,
    ws: Seq<W>,
    event: Event,
    source_child: Option<usize>,
) -> Dispatch<W> {
    let outcome = answer(node, ws, event, source_child);
    Dispatch {
        node: with_flag(node, node.needs_rebuild || outcome.refresh_layout),
        widgets: if node.widget < ws.len() {
            ws.update(node.widget as int, ws[node.widget as int].handled(event, source_child))
        } else {
            ws
        },
        events: if outcome.propagate_to_parent {
            outcome.events_for_parent.push(event)
        } else {
            outcome.events_for_parent
        },
    }
}

/// The events, each marked as coming from child `k`.
pub open spec fn tagged(events: Seq<Event>, k: usize) -> Seq<(Event, usize)> {
    Seq::new(events.len(), |i: int| (events[i], k))
}

/// The first `upto` of the events that the children passed on are delivered
/// to the widget of the node, one after the other.
pub open spec fn deliver<W: Widget>(
    node: NodeModel,
    ws: Seq<W>,
    forwarded: Seq<(Event, usize)>,
    upto: nat,
) -> Dispatch<W>
    decreases upto,
{
    if upto == 0 || upto > forwarded.len() {
        Dispatch { node: node, widgets: ws, events: Seq::empty() }
    } else {
        let before = deliver(node, ws, forwarded, (upto - 1) as nat);
        let (event, child) = forwarded[upto - 1];
        let sent = send(before.node, before.widgets, event, Some(child));
        Dispatch { node: sent.node, widgets: sent.widgets, events: before.events + sent.events }
    }
}

/// Whether one of the shapes, placed by `matrix`, covers the point.
pub open spec fn any_covers(shapes: Seq<ShapeModel>, matrix: Mat3, p: Point) -> bool {
    exists|k: int| 0 <= k < shapes.len() && covers(#[trigger] shapes[k].apply_matrix(matrix).matrix(), p)
}

/// Whether the cursor is over one of the shapes of the node, which `matrix`
/// places in the viewport. A cursor outside the viewport is over nothing.
pub open spec fn is_over(node: NodeModel, matrix: Mat3, mouse: Option<Point>) -> bool {
    match mouse {
        Some(p) => any_covers(node.shapes, matrix, p),
        None => false,
    }
}

/// The event that tells a widget whether the cursor is over it.
pub open spec fn hover_event(hit: bool) -> Event {
    if hit {
        Event::MouseEnter(MouseEnterEvent)
    } else {
        Event::MouseLeave(MouseLeaveEvent)
    }
}

/// One sample of the cursor is taken through a node, which `matrix` places
/// in the viewport. First the children are visited. Then the widget of the
/// node gets what they passed on, then the word whether the cursor is over
/// one of the node's own shapes, and then a click if it is and the button
/// was released with this sample.
pub open spec fn visit<W: Widget>(
    node: NodeModel,
    ws: Seq<W>,
    mouse: Option<Point>,
    matrix: Mat3,
    was_down: bool,
    is_down: bool,
) -> Dispatch<W>
    decreases node, node.children.len() + 1,
{
    let below = visit_children(node, ws, mouse, matrix, was_down, is_down, node.children.len());
    let told = deliver(below.node, below.widgets, below.forwarded, below.forwarded.len());
    let hit = is_over(node, matrix, mouse);
    let hover = send(told.node, told.widgets, hover_event(hit), None);
    if hit && was_down && !is_down {
        let click = send(hover.node, hover.widgets, Event::MouseClick(MouseClick), None);
        Dispatch {
            node: click.node,
            widgets: click.widgets,
            events: told.events + hover.events + click.events,
        }
    } else {
        Dispatch { node: hover.node, widgets: hover.widgets, events: told.events + hover.events }
    }
}

/// The sample is taken through the first `upto` children of a node.
pub open spec fn visit_children<W: Widget>(
    node: NodeModel,
    ws: Seq<W>,
    mouse: Option<Point>,
    matrix: Mat3,
    was_down: bool,
    is_down: bool,
    upto: nat,
) -> Gathered<W>
    decreases node, upto,
{
    if upto == 0 || upto > node.children.len() {
        Gathered { node: node, widgets: ws, forwarded: Seq::empty() }
    } else {
        let before = visit_children(
            node,
            ws,
            mouse,
            matrix,
            was_down,
            is_down,
            (upto - 1) as nat,
        );
        let (placing, child) = node.children[upto - 1];
        let below = visit(child, before.widgets, mouse, matrix.mul(placing), was_down, is_down);
        Gathered {
            node: with_child(before.node, upto - 1, below.node),
            widgets: below.widgets,
            forwarded: before.forwarded + tagged(below.events, (upto - 1) as usize),
        }
    }
}

/// The cursor as a point, where it is inside the viewport.
pub open spec fn cursor_view(mouse: Option<[Rational; 2]>) -> Option<Point> {
    match mouse {
        Some(p) => Some(point_view(p)),
        None => None,
    }
}

/// Once the search has found something, it goes no further.
proof fn lemma_found_stays<W: Widget>(node: NodeModel, ws: Seq<W>, k: nat, upto: nat)
    requires
        k <= upto <= node.children.len(),
        scan_children(node, ws, k).found,
    ensures
        scan_children(node, ws, upto) == scan_children(node, ws, k),
    decreases upto - k,
{
    if k < upto {
        lemma_found_stays(node, ws, k, (upto - 1) as nat);
    }
}

/// The search leaves alone the children that it has not reached.
proof fn lemma_scan_children_frame<W: Widget>(node: NodeModel, ws: Seq<W>, upto: nat)
    requires
        upto <= node.children.len(),
    ensures
        scan_children(node, ws, upto).node.children.len() == node.children.len(),
        forall|j: int|
            upto <= j < node.children.len() ==> scan_children(node, ws, upto).node.children[j]
                == node.children[j],
        forall|j: int|
            0 <= j < node.children.len() ==> (#[trigger] scan_children(
                node,
                ws,
                upto,
            ).node.children[j]).0 == node.children[j].0,
        scan_children(node, ws, upto).node.widget == node.widget,
        scan_children(node, ws, upto).node.shapes == node.shapes,
        scan_children(node, ws, upto).node.needs_rebuild == node.needs_rebuild,
        scan_children(node, ws, upto).node.margins == node.margins,
    decreases upto,
{
    if upto > 0 {
        lemma_scan_children_frame(node, ws, (upto - 1) as nat);
    }
}

/// The visit leaves alone the children that it has not reached.
proof fn lemma_visit_children_frame<W: Widget>(
    node: NodeModel,
    ws: Seq<W>,
    mouse: Option<Point>,
    matrix: Mat3,
    was_down: bool,
    is_down: bool,
    upto: nat,
)
    requires
        upto <= node.children.len(),
    ensures
        ({
            let after = visit_children(node, ws, mouse, matrix, was_down, is_down, upto).node;
            &&& after.children.len() == node.children.len()
            &&& forall|j: int| upto <= j < node.children.len() ==> after.children[j] == node.children[j]
            &&& forall|j: int|
                0 <= j < node.children.len() ==> (#[trigger] after.children[j]).0
                    == node.children[j].0
            &&& after.widget == node.widget
            &&& after.shapes == node.shapes
            &&& after.needs_rebuild == node.needs_rebuild
            &&& after.margins == node.margins
        }),
    decreases upto,
{
    if upto > 0 {
        lemma_visit_children_frame(node, ws, mouse, matrix, was_down, is_down, (upto - 1) as nat);
    }
}

/// Delivering events changes nothing of a node but its request for a rebuild.
proof fn lemma_deliver_frame<W: Widget>(
    node: NodeModel,
    ws: Seq<W>,
    forwarded: Seq<(Event, usize)>,
    upto: nat,
)
    ensures
        deliver(node, ws, forwarded, upto).node == with_flag(
            node,
            deliver(node, ws, forwarded, upto).node.needs_rebuild,
        ),
    decreases upto,
{
    if !(upto == 0 || upto > forwarded.len()) {
        lemma_deliver_frame(node, ws, forwarded, (upto - 1) as nat);
    }
}

/// Appends the events to the list.
fn append_events(result: &mut Vec<Event>, events: &Vec<Event>)
    ensures
        final(result)@ == old(result)@ + events@,
{
    let ghost start = result@;
    let mut k: usize = 0;
    proof {
        assert(start + events@.take(0) =~= start);
    }
    while k < events.len()
        invariant
            k <= events.len(),
            result@ == start + events@.take(k as int),
        decreases events.len() - k,
    {
        result.push(events[k]);
        proof {
            assert(start + events@.take(k + 1) =~= (start + events@.take(k as int)).push(
                events@[k as int],
            ));
        }
        k += 1;
    }
    proof {
        assert(events@.take(k as int) =~= events@);
    }
}

/// Appends the events to the list, each marked as coming from child `num`.
fn append_tagged(result: &mut Vec<(Event, usize)>, events: &Vec<Event>, num: usize)
    ensures
        final(result)@ == old(result)@ + tagged(events@, num),
{
    let ghost start = result@;
    let ghost target = tagged(events@, num);
    let mut k: usize = 0;
    proof {
        assert(start + target.take(0) =~= start);
    }
    while k < events.len()
        invariant
            k <= events.len(),
            target == tagged(events@, num),
            result@ == start + target.take(k as int),
        decreases events.len() - k,
    {
        result.push((events[k], num));
        proof {
            assert(start + target.take(k + 1) =~= (start + target.take(k as int)).push(
                target[k as int],
            ));
        }
        k += 1;
    }
    proof {
        assert(target.take(k as int) =~= target);
    }
}

impl Node {
    /// Whether this node, its widget, or anything below it asks for a
    /// rebuild. The search ends at the first find; a node that is found gives
    /// up its request.
    #[verifier::loop_isolation(false)]
    pub fn needs_rebuild<W: Widget>(&mut self, widgets: &mut Widgets<W>) -> (found: bool)
        ensures
            (Sweep { node: final(self)@, widgets: final(widgets)@, found: found }) == scan(
                old(self)@,
                old(widgets)@,
            ),
            final(widgets)@.len() == old(widgets)@.len(),
        decreases *old(self),
    {
        let ghost before = self@;
        if self.needs_rebuild {
            self.needs_rebuild = false;
            assert(self@.children =~= before.children);
            return true;
        }
        if widgets.poll(self.widget) {
            return true;
        }
        let ghost asked = widgets@;
        let n = self.children.len();
        let mut k: usize = 0;
        while k < n
            invariant
                k <= n,
                n == self.children.len(),
                n == old(self).children.len(),
                before == old(self)@,
                widgets@.len() == old(widgets)@.len(),
                forall|j: int| k <= j < n ==> self.children@[j] == old(self).children@[j],
                (Sweep { node: self@, widgets: widgets@, found: false }) == scan_children(
                    before,
                    asked,
                    k as nat,
                ),
            decreases n - k,
        {
            let ghost earlier = self@;
            assert(self.children@[k as int] == old(self).children@[k as int]);
            proof {
                lemma_scan_children_frame(before, asked, k as nat);
            }
            let found = self.children[k].1.needs_rebuild(widgets);
            proof {
                assert(self@.children =~= with_child(
                    earlier,
                    k as int,
                    self.children@[k as int].1@,
                ).children);
                assert(self@ == with_child(earlier, k as int, self.children@[k as int].1@));
            }
            if found {
                proof {
                    lemma_found_stays(before, asked, (k + 1) as nat, n as nat);
                }
                return true;
            }
            k += 1;
        }
        false
    }

    /// Makes the node ask for a rebuild.
    pub fn request_rebuild(&mut self)
        ensures
            final(self)@ == with_flag(old(self)@, true),
    {
        let ghost before = self@;
        self.needs_rebuild = true;
        assert(self@.children =~= before.children);
    }

    /// Sends an event to the node and returns events to propagate to the parent.
    pub fn send_event<W: Widget>(
        &mut self,
        widgets: &mut Widgets<W>,
        event: Event,
        child_num: Option<usize>,
    ) -> (result: Vec<Event>)
        ensures
            (Dispatch { node: final(self)@, widgets: final(widgets)@, events: result@ }) == send(
                old(self)@,
                old(widgets)@,
                event,
                child_num,
            ),
            final(widgets)@.len() == old(widgets)@.len(),
    {
        let ghost before = self@;
        let outcome = widgets.handle(self.widget, &event, child_num);
        if outcome.refresh_layout {
            self.needs_rebuild = true;
        }
        let mut result = outcome.events_for_parent;
        if outcome.propagate_to_parent {
            result.push(event);
        }
        assert(self@.children =~= before.children);
        result
    }

    /// Whether the point is over one of the shapes of the node, which
    /// `matrix` places in the viewport.
    pub fn is_hit(&self, matrix: &Matrix, point: &[Rational; 2]) -> (hit: bool)
        ensures
            hit == any_covers(self@.shapes, matrix@, point_view(*point)),
    {
        let mut k: usize = 0;
        while k < self.shapes.len()
            invariant
                k <= self.shapes.len(),
                forall|j: int|
                    0 <= j < k ==> !covers(
                        (#[trigger] self@.shapes[j]).apply_matrix(matrix@).matrix(),
                        point_view(*point),
                    ),
            decreases self.shapes.len() - k,
        {
            if self.shapes[k].clone().apply_matrix(matrix).hit_test(point) {
                assert(covers(
                    self@.shapes[k as int].apply_matrix(matrix@).matrix(),
                    point_view(*point),
                ));
                return true;
            }
            k += 1;
        }
        false
    }

    /// Sends mouse events to the node, and returns a list of events that must be propagated to the
    /// parent.
    ///
    /// `mouse` is the cursor, or `None` where it is outside the viewport;
    /// `matrix` places the node in the viewport; `was_down` and `is_down` say
    /// whether the button was held at the sample before this one and whether
    /// it is held now.
    pub fn mouse_update<W: Widget>(
        &mut self,
        widgets: &mut Widgets<W>,
        mouse: &Option<[Rational; 2]>,
        matrix: &Matrix,
        was_down: bool,
        is_down: bool,
    ) -> (result: Vec<Event>)
        ensures
            (Dispatch { node: final(self)@, widgets: final(widgets)@, events: result@ }) == visit(
                old(self)@,
                old(widgets)@,
                cursor_view(*mouse),
                matrix@,
                was_down,
                is_down,
            ),
            final(widgets)@.len() == old(widgets)@.len(),
        decreases *old(self),
    {
        let ghost before = self@;
        let ghost start = widgets@;
        let ghost cursor = cursor_view(*mouse);
        let mut events_for_self: Vec<(Event, usize)> = Vec::new();
        let n = self.children.len();
        let mut num: usize = 0;
        while num < n
            invariant
                num <= n,
                n == self.children.len(),
                n == old(self).children.len(),
                before == old(self)@,
                cursor == cursor_view(*mouse),
                widgets@.len() == old(widgets)@.len(),
                forall|j: int| num <= j < n ==> self.children@[j] == old(self).children@[j],
                (Gathered {
                    node: self@,
                    widgets: widgets@,
                    forwarded: events_for_self@,
                }) == visit_children(before, start, cursor, matrix@, was_down, is_down, num as nat),
            decreases n - num,
        {
            let ghost earlier = self@;
            assert(self.children@[num as int] == old(self).children@[num as int]);
            proof {
                lemma_visit_children_frame(
                    before,
                    start,
                    cursor,
                    matrix@,
                    was_down,
                    is_down,
                    num as nat,
                );
            }
            let child_matrix = matrix.mul(&self.children[num].0);
            let events = self.children[num].1.mouse_update(
                widgets,
                mouse,
                &child_matrix,
                was_down,
                is_down,
            );
            append_tagged(&mut events_for_self, &events, num);
            proof {
                assert(self@.children =~= with_child(
                    earlier,
                    num as int,
                    self.children@[num as int].1@,
                ).children);
                assert(self@ == with_child(earlier, num as int, self.children@[num as int].1@));
            }
            num += 1;
        }
        let ghost below = Gathered { node: self@, widgets: widgets@, forwarded: events_for_self@ };
        proof {
            lemma_visit_children_frame(before, start, cursor, matrix@, was_down, is_down, n as nat);
        }
        let mut result: Vec<Event> = Vec::new();
        let mut i: usize = 0;
        while i < events_for_self.len()
            invariant
                i <= events_for_self.len(),
                below.forwarded == events_for_self@,
                widgets@.len() == old(widgets)@.len(),
                (Dispatch { node: self@, widgets: widgets@, events: result@ }) == deliver(
                    below.node,
                    below.widgets,
                    below.forwarded,
                    i as nat,
                ),
            decreases events_for_self.len() - i,
        {
            let (event, child) = events_for_self[i];
            let sent = self.send_event(widgets, event, Some(child));
            append_events(&mut result, &sent);
            i += 1;
        }
        proof {
            lemma_deliver_frame(
                below.node,
                below.widgets,
                below.forwarded,
                below.forwarded.len(),
            );
        }
        let hit = match mouse {
            Some(point) => self.is_hit(matrix, point),
            None => false,
        };
        let hover = if hit {
            Event::MouseEnter(MouseEnterEvent)
        } else {
            Event::MouseLeave(MouseLeaveEvent)
        };
        let sent = self.send_event(widgets, hover, None);
        append_events(&mut result, &sent);
        if hit && was_down && !is_down {
            let sent = self.send_event(widgets, Event::MouseClick(MouseClick), None);
            append_events(&mut result, &sent);
        }
        result
    }
}

} // verus!
