//! A picture that changes while the cursor is over it.
use crate::predefined::Image;
use crate::rational::Rational;
use crate::{Alignment, Event, EventOutcome, EventOutcomeModel, Layout, LayoutModel, Widget};
use vstd::prelude::*;

verus! {

/// An image that can be used as a button. Has a regular image and a hovered image.
pub struct ImageButton {
    hovered: bool,
    image_normal: Image,
    image_hovered: Image,
}

impl ImageButton {
    /// Whether the button was last told that the cursor is over it.
    pub closed spec fn is_hovered(&self) -> bool {
        self.hovered
    }

    /// The image that is shown while the cursor is elsewhere.
    pub closed spec fn normal(&self) -> Image {
        self.image_normal
    }

    /// The image that is shown while the cursor is over the button.
    pub closed spec fn highlight(&self) -> Image {
        self.image_hovered
    }

    /// The button once it was told whether the cursor is over it.
    pub closed spec fn told(&self, hovered: bool) -> ImageButton {
        ImageButton {
            hovered: hovered,
            image_normal: self.image_normal,
            image_hovered: self.image_hovered,
        }
    }

    /// Telling the button changes nothing but what it remembers.
    pub proof fn lemma_told(&self, hovered: bool)
        ensures
            self.told(hovered).is_hovered() == hovered,
            self.told(hovered).normal() == self.normal(),
            self.told(hovered).highlight() == self.highlight(),
    {
    }

    /// Initializes a new button.
    pub fn new(normal: &str, hovered: &str, height_per_width: Rational) -> (button: ImageButton)
        ensures
            !button.is_hovered(),
            button.normal().name() == normal@,
            button.normal().ratio() == height_per_width@,
            button.highlight().name() == hovered@,
            button.highlight().ratio() == height_per_width@,
    {
        let ratio = height_per_width.clone();
        ImageButton {
            hovered: false,
            image_normal: Image::new(normal, ratio),
            image_hovered: Image::new(hovered, height_per_width),
        }
    }
}

/// The outcome of an event that changes what a widget shows.
pub open spec fn refreshing() -> EventOutcomeModel {
    EventOutcomeModel {
        refresh_layout: true,
        propagate_to_parent: true,
        events_for_parent: Seq::empty(),
    }
}

impl Widget for ImageButton {
    open spec fn layout(&self, height_per_width: real, alignment: Alignment) -> LayoutModel {
        if self.is_hovered() {
            self.highlight().layout(height_per_width, alignment)
        } else {
            self.normal().layout(height_per_width, alignment)
        }
    }

    fn build_layout(&self, height_per_width: &Rational, alignment: Alignment) -> (l: Layout) {
        if self.hovered {
            self.image_hovered.build_layout(height_per_width, alignment)
        } else {
            self.image_normal.build_layout(height_per_width, alignment)
        }
    }

    fn needs_rebuild(&mut self) -> (stale: bool) {
        if self.hovered {
            self.image_hovered.needs_rebuild()
        } else {
            self.image_normal.needs_rebuild()
        }
    }

    open spec fn outcome(&self, event: Event, source_child: Option<usize>) -> EventOutcomeModel {
        match event {
            Event::MouseEnter(_) => refreshing(),
            Event::MouseLeave(_) => refreshing(),
            _ => EventOutcomeModel::ignored(),
        }
    }

    open spec fn handled(&self, event: Event, source_child: Option<usize>) -> ImageButton {
        match event {
            Event::MouseEnter(_) => self.told(true),
            Event::MouseLeave(_) => self.told(false),
            _ => *self,
        }
    }

    fn handle_event(&mut self, event: &Event, source_child: Option<usize>) -> (outcome:
        EventOutcome)
        ensures
            final(self).normal() == old(self).normal(),
            final(self).highlight() == old(self).highlight(),
            final(self).is_hovered() == match *event {
                Event::MouseEnter(_) => true,
                Event::MouseLeave(_) => false,
                _ => old(self).is_hovered(),
            },
    {
        match event {
            Event::MouseEnter(_) => {
                self.hovered = true;
                let outcome = EventOutcome {
                    refresh_layout: true,
                    propagate_to_parent: true,
                    events_for_parent: Vec::new(),
                };
                assert(outcome@.events_for_parent =~= Seq::empty());
                outcome
            },
            Event::MouseLeave(_) => {
                self.hovered = false;
                let outcome = EventOutcome {
                    refresh_layout: true,
                    propagate_to_parent: true,
                    events_for_parent: Vec::new(),
                };
                assert(outcome@.events_for_parent =~= Seq::empty());
                outcome
            },
            _ => Default::default(),
        }
    }
}

} // verus!
