//! The gesture classifier: for one channel, a debounce, multi-click and hold
//! state machine that turns raw level samples into at most one gesture per
//! tick.

use vstd::prelude::*;
use crate::button::ID;
use crate::gesture::{Gesture, RawLevel};
use crate::timing::Timing;

verus! {

/// What the classifier of one channel remembers between ticks.
///
/// The four fields stand for the states of the machine:
/// - idle: released, no pending clicks;
/// - debouncing a press: pressed for less than the debounce duration;
/// - counting clicks: released with pending clicks, while the multi-click
///   window that began at `last_transition_time` is open;
/// - holding: pressed with `hold_active` set.
///
/// A press that has lasted the debounce duration and not yet the hold
/// threshold counts as a click when it is released. While the channel is
/// pressed, `last_transition_time` is when the press began.
#[derive(Debug, PartialEq, Eq, Copy, Clone, Structural)]
pub struct ClassifierState {
    /// The level at the last tick.
    pub level: RawLevel,
    /// Confirmed presses that have not yet been reported, at most 3.
    pub pending_clicks: u8,
    /// When the level last changed, in microseconds.
    pub last_transition_time: u64,
    /// Whether the press in progress has become a hold.
    pub hold_active: bool,
}

impl ClassifierState {
    /// The state of a channel that has seen nothing yet: idle.
    pub open spec fn initial() -> ClassifierState {
        ClassifierState {
            level: RawLevel::Released,
            pending_clicks: 0,
            last_transition_time: 0,
            hold_active: false,
        }
    }

    /// Released, with no pending clicks.
    pub open spec fn is_idle(self) -> bool {
        self.level is Released && self.pending_clicks == 0
    }

    /// The time from the last transition to `now`; zero where the clock
    /// reads earlier than the transition.
    pub open spec fn elapsed(self, now: u64) -> u64 {
        if now >= self.last_transition_time {
            (now - self.last_transition_time) as u64
        } else {
            0
        }
    }

    /// The press in progress is a hold: it was one already, or it has now
    /// lasted the hold threshold.
    pub open spec fn held(self, timing: Timing, now: u64) -> bool {
        self.level is Pressed && (self.hold_active || self.elapsed(now) >= timing.hold_threshold)
    }

    /// The sample ends a hold.
    pub open spec fn hold_released(self, timing: Timing, level: RawLevel, now: u64) -> bool {
        self.held(timing, now) && level is Released
    }

    /// The sample continues a hold.
    pub open spec fn hold_continues(self, timing: Timing, level: RawLevel, now: u64) -> bool {
        self.held(timing, now) && level is Pressed
    }

    /// The pending clicks are due: the channel stayed released for the
    /// multi-click window, or the press that followed them has become a
    /// hold.
    pub open spec fn clicks_due(self, timing: Timing, level: RawLevel, now: u64) -> bool {
        self.pending_clicks > 0 && (self.hold_continues(timing, level, now) || (self.level
            is Released && self.elapsed(now) >= timing.multi_click_window))
    }

    /// The sample ends a press that lasted the debounce duration and did
    /// not become a hold: one more confirmed press.
    pub open spec fn press_confirmed(self, timing: Timing, level: RawLevel, now: u64) -> bool {
        self.level is Pressed && level is Released && !self.held(timing, now) && self.elapsed(
            now,
        ) >= timing.debounce_duration
    }

    /// The gesture that a sample gives, if any. Where several are due at
    /// once, the end of a hold comes before the pending clicks, and those
    /// before the report of a hold in progress.
    pub open spec fn emits(self, id: ID, timing: Timing, level: RawLevel, now: u64) -> Option<
        Gesture,
    > {
        if self.hold_released(timing, level, now) {
            Some(Gesture::Held(id, self.elapsed(now)))
        } else if self.clicks_due(timing, level, now) {
            Some(Gesture::of_clicks(id, self.pending_clicks as nat))
        } else if self.hold_continues(timing, level, now) {
            Some(Gesture::Holding(id, self.elapsed(now)))
        } else {
            None
        }
    }

    /// The pending clicks and one more, where three stand for any larger
    /// count.
    pub open spec fn one_more(self) -> u8 {
        if self.pending_clicks >= 3 {
            3
        } else {
            (self.pending_clicks + 1) as u8
        }
    }

    /// Whether the sample gives a gesture.
    pub open spec fn fires(self, timing: Timing, level: RawLevel, now: u64) -> bool {
        self.held(timing, now) || self.clicks_due(timing, level, now)
    }

    /// The state after a sample. The pending clicks are dropped when any
    /// gesture is given, and grow by one when a press is confirmed. The
    /// transition time moves only when the level changes.
    pub open spec fn next(self, timing: Timing, level: RawLevel, now: u64) -> ClassifierState {
        ClassifierState {
            level,
            pending_clicks: if self.fires(timing, level, now) {
                0
            } else if self.press_confirmed(timing, level, now) {
                self.one_more()
            } else {
                self.pending_clicks
            },
            last_transition_time: if level != self.level {
                now
            } else {
                self.last_transition_time
            },
            hold_active: self.hold_continues(timing, level, now),
        }
    }

    /// What every state that the classifier reaches satisfies: a hold is
    /// active only during a press, and no more than three clicks are
    /// pending.
    pub open spec fn wf(self) -> bool {
        (self.hold_active ==> self.level is Pressed) && self.pending_clicks <= 3
    }

    /// Takes one sample: the state after it, and the gesture it gives.
    pub fn advance(self, id: ID, timing: Timing, level: RawLevel, now: u64) -> (r: (
        ClassifierState,
        Option<Gesture>,
    ))
        ensures
            r.0 == self.next(timing, level, now),
            r.1 == self.emits(id, timing, level, now),
            r.1 is Some <==> self.fires(timing, level, now),
            r.1 matches Some(g) ==> g.channel() == id && r.0.pending_clicks == 0,
            r.1 matches Some(Gesture::Held(_, total)) ==> self.hold_active || total
                >= timing.hold_threshold,
            self.wf() ==> r.0.wf(),
    {
        let elapsed = if now >= self.last_transition_time {
            now - self.last_transition_time
        } else {
            0
        };
        match (self.level, level) {
            (RawLevel::Pressed, RawLevel::Released) => {
                let rest = ClassifierState {
                    level,
                    pending_clicks: 0,
                    last_transition_time: now,
                    hold_active: false,
                };
                if self.hold_active || elapsed >= timing.hold_threshold {
                    (rest, Some(Gesture::Held(id, elapsed)))
                } else if elapsed >= timing.debounce_duration {
                    let count: u8 = if self.pending_clicks >= 3 {
                        3
                    } else {
                        self.pending_clicks + 1
                    };
                    (ClassifierState { pending_clicks: count, ..rest }, None)
                } else {
                    (ClassifierState { pending_clicks: self.pending_clicks, ..rest }, None)
                }
            },
            (RawLevel::Pressed, RawLevel::Pressed) => {
                if self.hold_active || elapsed >= timing.hold_threshold {
                    let holding = ClassifierState { pending_clicks: 0, hold_active: true, ..self };
                    if self.pending_clicks > 0 {
                        (holding, Some(Gesture::from_clicks(id, self.pending_clicks)))
                    } else {
                        (holding, Some(Gesture::Holding(id, elapsed)))
                    }
                } else {
                    (ClassifierState { hold_active: false, ..self }, None)
                }
            },
            (RawLevel::Released, _) => {
                let since = match level {
                    RawLevel::Pressed => now,
                    RawLevel::Released => self.last_transition_time,
                };
                let rest = ClassifierState {
                    level,
                    pending_clicks: 0,
                    last_transition_time: since,
                    hold_active: false,
                };
                if self.pending_clicks > 0 && elapsed >= timing.multi_click_window {
                    (rest, Some(Gesture::from_clicks(id, self.pending_clicks)))
                } else {
                    (ClassifierState { pending_clicks: self.pending_clicks, ..rest }, None)
                }
            },
        }
    }
}

/// One reading of a channel: the level, and when it was read.
#[derive(Debug, PartialEq, Eq, Copy, Clone, Structural)]
pub struct Sample {
    pub level: RawLevel,
    /// The clock at the reading, in microseconds.
    pub at: u64,
}

/// The classifier run over a sequence of samples, first to last: the state
/// at the end and the gestures given, in order.
pub open spec fn run(state: ClassifierState, id: ID, timing: Timing, samples: Seq<Sample>) -> (
    ClassifierState,
    Seq<Gesture>,
)
    decreases samples.len(),
{
    if samples.len() == 0 {
        (state, Seq::empty())
    } else {
        let (before, gestures) = run(state, id, timing, samples.drop_last());
        let sample = samples.last();
        let after = before.next(timing, sample.level, sample.at);
        match before.emits(id, timing, sample.level, sample.at) {
            Some(g) => (after, gestures.push(g)),
            None => (after, gestures),
        }
    }
}

/// The gesture classifier of one channel.
#[derive(Debug)]
pub struct Classifier {
    id: ID,
    timing: Timing,
    state: ClassifierState,
}

impl Classifier {
    /// The channel.
    pub closed spec fn id(&self) -> ID {
        self.id
    }

    /// The durations.
    pub closed spec fn timing(&self) -> Timing {
        self.timing
    }

    /// What the classifier remembers.
    pub closed spec fn state(&self) -> ClassifierState {
        self.state
    }

    /// A classifier for a channel that has seen nothing yet.
    pub fn new(id: ID, timing: Timing) -> (c: Classifier)
        ensures
            c.id() == id,
            c.timing() == timing,
            c.state() == ClassifierState::initial(),
    {
        Classifier {
            id,
            timing,
            state: ClassifierState {
                level: RawLevel::Released,
                pending_clicks: 0,
                last_transition_time: 0,
                hold_active: false,
            },
        }
    }

    /// The channel.
    pub fn channel(&self) -> (id: ID)
        ensures
            id == self.id(),
    {
        self.id
    }

    /// The durations.
    pub fn durations(&self) -> (timing: Timing)
        ensures
            timing == self.timing(),
    {
        self.timing
    }

    /// What the classifier remembers.
    pub fn snapshot(&self) -> (state: ClassifierState)
        ensures
            state == self.state(),
    {
        self.state
    }

    /// Takes the sample of one tick and returns the gesture it gives, if
    /// any.
    pub fn tick(&mut self, level: RawLevel, now: u64) -> (g: Option<Gesture>)
        ensures
            g == old(self).state().emits(old(self).id(), old(self).timing(), level, now),
            final(self).state() == old(self).state().next(old(self).timing(), level, now),
            final(self).id() == old(self).id(),
            final(self).timing() == old(self).timing(),
    {
        let (state, gesture) = self.state.advance(self.id, self.timing, level, now);
        self.state = state;
        gesture
    }

    /// Takes the samples of several ticks in order and returns the gestures
    /// they give, in order.
    pub fn feed(&mut self, samples: &Vec<Sample>) -> (gestures: Vec<Gesture>)
        ensures
            (final(self).state(), gestures@) == run(
                old(self).state(),
                old(self).id(),
                old(self).timing(),
                samples@,
            ),
            final(self).id() == old(self).id(),
            final(self).timing() == old(self).timing(),
    {
        let mut gestures: Vec<Gesture> = Vec::new();
        let mut i: usize = 0;
        while i < samples.len()
            invariant
                i <= samples.len(),
                (self.state(), gestures@) == run(
                    old(self).state(),
                    old(self).id(),
                    old(self).timing(),
                    samples@.take(i as int),
                ),
                self.id() == old(self).id(),
                self.timing() == old(self).timing(),
            decreases samples.len() - i,
        {
            assert(samples@.take(i + 1).drop_last() == samples@.take(i as int));
            let sample = samples[i];
            match self.tick(sample.level, sample.at) {
                Some(gesture) => gestures.push(gesture),
                None => {},
            }
            i += 1;
        }
        assert(samples@.take(i as int) == samples@);
        gestures
    }
}

} // verus!
