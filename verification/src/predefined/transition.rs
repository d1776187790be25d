//! A widget that slides into place.
use crate::matrix::Matrix;
use crate::rational::{quotient_or_zero, Rational};
use crate::shape::real_min;
use crate::transform::Mat3;
use crate::{Layout, LayoutModel};
use vstd::prelude::*;

verus! {

/// The time between the making of a transition and the start of its
/// animation, in nanoseconds.
pub const START_DELAY_NS: u64 = 1000000000;

/// The time that the animation of a transition takes, in nanoseconds.
pub const ANIMATION_NS: u64 = 3000000000;

/// The sum of two times, or the latest time that can be told where the sum
/// is later than that.
pub open spec fn later(time: u64, by: u64) -> u64 {
    if time + by > u64::MAX {
        u64::MAX
    } else {
        (time + by) as u64
    }
}

/// The clock of the machine, in nanoseconds since a moment that is not
/// specified. Calls `time::precise_time_ns`; nothing is claimed of the value,
/// which differs from call to call. The call returns on every platform for
/// which that crate has a clock; for a bare `wasm32` target it has none.
#[verifier::external_body]
fn precise_time_ns() -> (now: u64) {
    time::precise_time_ns()
}

/// The animation of one widget, which starts a moment after the transition
/// was made and moves the widget into its place.
pub struct Transition {
    child: usize,
    anim_start_ns: u64,
    anim_duration_ns: u64,
}

impl Transition {
    /// The widget that is animated, by its index among the widgets.
    pub closed spec fn child(&self) -> usize {
        self.child
    }

    /// When the animation starts.
    pub closed spec fn start(&self) -> u64 {
        self.anim_start_ns
    }

    /// How long the animation takes.
    pub closed spec fn duration(&self) -> u64 {
        self.anim_duration_ns
    }

    /// The part of the animation that is over at the time `now`: nothing
    /// before the start, all of it from the end on.
    pub open spec fn progress(&self, now: u64) -> real {
        let elapsed = if now < self.start() {
            0int
        } else {
            now - self.start()
        };
        real_min(1real, quotient_or_zero(elapsed as real, self.duration() as real))
    }

    /// Whether the animation is not yet over at the time `now`.
    pub open spec fn running(&self, now: u64) -> bool {
        now < self.start() + self.duration()
    }

    /// A transition for the widget `child` that was made at the time `now`.
    pub fn starting_at(child: usize, now: u64) -> (transition: Transition)
        ensures
            transition.child() == child,
            transition.start() == later(now, START_DELAY_NS),
            transition.duration() == ANIMATION_NS,
    {
        Transition {
            child: child,
            anim_start_ns: now.saturating_add(START_DELAY_NS),
            anim_duration_ns: ANIMATION_NS,
        }
    }

    /// A transition for the widget `child` that is made now, by the clock of
    /// the machine.
    pub fn new(child: usize) -> (transition: Transition)
        ensures
            transition.child() == child,
            transition.duration() == ANIMATION_NS,
            exists|now: u64| transition.start() == later(now, START_DELAY_NS),
    {
        let now = precise_time_ns();
        let transition = Transition::starting_at(child, now);
        assert(transition.start() == later(now, START_DELAY_NS));
        transition
    }

    /// The part of the animation that is over at the time `now`.
    pub fn progress_at(&self, now: u64) -> (part: Rational)
        ensures
            part@ == self.progress(now),
    {
        let elapsed = now.saturating_sub(self.anim_start_ns);
        let part = Rational::from_u64(elapsed).div_or_zero(
            &Rational::from_u64(self.anim_duration_ns),
        );
        Rational::one().min(&part)
    }

    /// Whether the animation is not yet over at the time `now`.
    pub fn is_running_at(&self, now: u64) -> (running: bool)
        ensures
            running == self.running(now),
    {
        match self.anim_start_ns.checked_add(self.anim_duration_ns) {
            Some(end) => now < end,
            None => true,
        }
    }

    /// The part of the animation that is over now, by the clock of the
    /// machine.
    pub fn progress_now(&self) -> (part: Rational)
        ensures
            exists|now: u64| part@ == self.progress(now),
    {
        let now = precise_time_ns();
        let part = self.progress_at(now);
        assert(part@ == self.progress(now));
        part
    }

    /// Whether the animation is not yet over, by the clock of the machine.
    pub fn is_running(&self) -> (running: bool)
        ensures
            exists|now: u64| running == self.running(now),
    {
        let now = precise_time_ns();
        let running = self.is_running_at(now);
        assert(running == self.running(now));
        running
    }

    /// The layout of the transition while its widget is `offset` to the
    /// right of its place.
    pub fn layout_with(&self, offset: Rational) -> (l: Layout)
        ensures
            l@ == LayoutModel::AbsolutePositionned(
                seq![(Mat3::translate(offset@, 0real), self.child())],
            ),
    {
        let matrix = Matrix::translate(offset, Rational::zero());
        let mut list: Vec<(Matrix, usize)> = Vec::new();
        list.push((matrix, self.child));
        let l = Layout::AbsolutePositionned(list);
        proof {
            assert(l@->AbsolutePositionned_0 =~= seq![
                (Mat3::translate(offset@, 0real), self.child()),
            ]);
        }
        l
    }
}

} // verus!
