//! The widgets of an application: a list that is never empty, whose first
//! member is the root.
use crate::{Event, EventOutcome, EventOutcomeModel, Widget};
use vstd::prelude::*;

verus! {

/// The widgets of an application, each known by its place in the list. The
/// root has the place 0. There always is a root: it is held apart from the
/// widgets behind it.
pub struct Widgets<W> {
    root: W,
    rest: Vec<W>,
}

impl<W> View for Widgets<W> {
    type V = Seq<W>;

    /// The widgets in their order, the root first.
    closed spec fn view(&self) -> Seq<W> {
        seq![self.root] + self.rest@
    }
}

impl<W> Widgets<W> {
    /// There is a root.
    pub proof fn lemma_has_root(&self)
        ensures
            self@.len() > 0,
    {
    }

    /// The widgets of the list `all`, the first of which is the root; `None`
    /// where the list is empty.
    pub fn new(all: Vec<W>) -> (widgets: Option<Widgets<W>>)
        ensures
            match widgets {
                Some(w) => w@ == all@,
                None => all@.len() == 0,
            },
    {
        let mut rest = all;
        if rest.len() == 0 {
            None
        } else {
            let root = rest.remove(0);
            let widgets = Widgets { root: root, rest: rest };
            assert(widgets@ =~= all@);
            Some(widgets)
        }
    }

    /// Whether there is a widget at the place `id`.
    pub fn holds(&self, id: usize) -> (held: bool)
        ensures
            held == (id < self@.len()),
    {
        id == 0 || id - 1 < self.rest.len()
    }

    /// The root.
    pub fn root(&self) -> (root: &W)
        ensures
            self@.len() > 0,
            *root == self@[0],
    {
        &self.root
    }

    /// The widget at the place `id`, if there is one.
    pub fn get(&self, id: usize) -> (widget: Option<&W>)
        ensures
            match widget {
                Some(w) => id < self@.len() && *w == self@[id as int],
                None => id >= self@.len(),
            },
    {
        if id == 0 {
            Some(&self.root)
        } else if id - 1 < self.rest.len() {
            Some(&self.rest[id - 1])
        } else {
            None
        }
    }

    /// All widgets in their order, the root first.
    pub fn all(&self) -> (list: Vec<&W>)
        ensures
            list@.len() == self@.len(),
            forall|i: int| 0 <= i < list@.len() ==> *(#[trigger] list@[i]) == self@[i],
    {
        let mut list: Vec<&W> = Vec::new();
        list.push(&self.root);
        let mut k: usize = 0;
        while k < self.rest.len()
            invariant
                k <= self.rest.len(),
                list@.len() == k + 1,
                forall|i: int| 0 <= i < list@.len() ==> *(#[trigger] list@[i]) == self@[i],
            decreases self.rest.len() - k,
        {
            list.push(&self.rest[k]);
            k += 1;
        }
        list
    }

    /// Puts `widget` at the place `id` and returns true, or returns false
    /// where there is no such place.
    pub fn set(&mut self, id: usize, widget: W) -> (done: bool)
        ensures
            done == (id < old(self)@.len()),
            final(self)@ == if done {
                old(self)@.update(id as int, widget)
            } else {
                old(self)@
            },
    {
        if id == 0 {
            self.root = widget;
            assert(self@ =~= old(self)@.update(0, widget));
            true
        } else if id - 1 < self.rest.len() {
            self.rest[id - 1] = widget;
            assert(self@ =~= old(self)@.update(id as int, widget));
            true
        } else {
            false
        }
    }
}

impl<W: Widget> Widgets<W> {
    /// Asks the widget at the place `id` whether it needs a rebuild. A
    /// place without a widget needs none.
    pub fn poll(&mut self, id: usize) -> (stale: bool)
        ensures
            stale == (id < old(self)@.len() && old(self)@[id as int].stale()),
            final(self)@ == if id < old(self)@.len() {
                old(self)@.update(id as int, old(self)@[id as int].polled())
            } else {
                old(self)@
            },
    {
        if id == 0 {
            let stale = self.root.needs_rebuild();
            assert(self@ =~= old(self)@.update(0, old(self)@[0].polled()));
            stale
        } else if id - 1 < self.rest.len() {
            let stale = self.rest[id - 1].needs_rebuild();
            assert(self@ =~= old(self)@.update(id as int, old(self)@[id as int].polled()));
            stale
        } else {
            false
        }
    }

    /// Hands an event to the widget at the place `id`. A place without a
    /// widget lets the event pass.
    pub fn handle(&mut self, id: usize, event: &Event, source_child: Option<usize>) -> (outcome:
        EventOutcome)
        ensures
            outcome@ == if id < old(self)@.len() {
                old(self)@[id as int].outcome(*event, source_child)
            } else {
                EventOutcomeModel::ignored()
            },
            final(self)@ == if id < old(self)@.len() {
                old(self)@.update(id as int, old(self)@[id as int].handled(*event, source_child))
            } else {
                old(self)@
            },
    {
        if id == 0 {
            let outcome = self.root.handle_event(event, source_child);
            assert(self@ =~= old(self)@.update(
                0,
                old(self)@[0].handled(*event, source_child),
            ));
            outcome
        } else if id - 1 < self.rest.len() {
            let outcome = self.rest[id - 1].handle_event(event, source_child);
            assert(self@ =~= old(self)@.update(
                id as int,
                old(self)@[id as int].handled(*event, source_child),
            ));
            outcome
        } else {
            Default::default()
        }
    }
}

} // verus!
