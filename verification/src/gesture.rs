//! Raw levels, the gestures classified from them and the packets that
//! gestures resolve into.

use vstd::prelude::*;
use crate::button::ID;
use crate::media::Command;

verus! {

/// The level of one channel at one sampling tick.
#[derive(Debug, PartialEq, Eq, Copy, Clone, Structural)]
pub enum RawLevel {
    Pressed,
    Released,
}

/// How a button is wired: which electrical level means "pressed".
#[derive(Debug, PartialEq, Eq, Copy, Clone, Structural)]
pub enum Mode {
    /// Pressed reads low.
    PullUp,
    /// Pressed reads high.
    PullDown,
}

impl RawLevel {
    /// The level that an electrical reading stands for under a wiring:
    /// released where the pin reads high on a pull-up, or low on a
    /// pull-down.
    pub open spec fn of_pin(high: bool, mode: Mode) -> RawLevel {
        if high == (mode is PullUp) {
            RawLevel::Released
        } else {
            RawLevel::Pressed
        }
    }

    /// Normalizes an electrical reading to a level.
    pub fn from_pin(high: bool, mode: Mode) -> (level: RawLevel)
        ensures
            level == RawLevel::of_pin(high, mode),
    {
        let pull_up = match mode {
            Mode::PullUp => true,
            Mode::PullDown => false,
        };
        if high == pull_up {
            RawLevel::Released
        } else {
            RawLevel::Pressed
        }
    }
}

/// A classified input event of one channel. Durations are microseconds.
#[derive(Debug, PartialEq, Eq, Copy, Clone, Structural)]
pub enum Gesture {
    /// One confirmed press.
    Click(ID),
    /// Two confirmed presses in a row.
    DoubleClick(ID),
    /// Three or more confirmed presses in a row.
    TripleClick(ID),
    /// The button is held; the time since the press began.
    Holding(ID, u64),
    /// The button was held and has been released; the whole press.
    Held(ID, u64),
}

impl Gesture {
    /// The channel the gesture came from.
    pub open spec fn channel(self) -> ID {
        match self {
            Gesture::Click(id) => id,
            Gesture::DoubleClick(id) => id,
            Gesture::TripleClick(id) => id,
            Gesture::Holding(id, _) => id,
            Gesture::Held(id, _) => id,
        }
    }

    /// Whether the gesture is a click, a double click or a triple click.
    pub open spec fn is_click_family(self) -> bool {
        self is Click || self is DoubleClick || self is TripleClick
    }

    /// The click gesture for a run of `count` confirmed presses: a click for
    /// one (and for none), a double click for two, a triple click for any
    /// larger count.
    pub open spec fn of_clicks(id: ID, count: nat) -> Gesture
        recommends
            count > 0,
    {
        if count <= 1 {
            Gesture::Click(id)
        } else if count == 2 {
            Gesture::DoubleClick(id)
        } else {
            Gesture::TripleClick(id)
        }
    }

    /// The channel the gesture came from.
    pub fn id(&self) -> (id: ID)
        ensures
            id == self.channel(),
    {
        match self {
            Gesture::Click(id) => *id,
            Gesture::DoubleClick(id) => *id,
            Gesture::TripleClick(id) => *id,
            Gesture::Holding(id, _) => *id,
            Gesture::Held(id, _) => *id,
        }
    }

    /// Whether the gesture takes part in command and chord lookups.
    pub fn is_click(&self) -> (b: bool)
        ensures
            b == self.is_click_family(),
    {
        match self {
            Gesture::Click(_) => true,
            Gesture::DoubleClick(_) => true,
            Gesture::TripleClick(_) => true,
            Gesture::Holding(_, _) => false,
            Gesture::Held(_, _) => false,
        }
    }

    /// The click gesture for a run of `count` confirmed presses.
    pub fn from_clicks(id: ID, count: u8) -> (g: Gesture)
        ensures
            g == Gesture::of_clicks(id, count as nat),
    {
        if count <= 1 {
            Gesture::Click(id)
        } else if count == 2 {
            Gesture::DoubleClick(id)
        } else {
            Gesture::TripleClick(id)
        }
    }
}

/// What the resolver hands to the output sink.
#[derive(Debug, PartialEq, Eq, Copy, Clone, Structural)]
pub enum Packet {
    /// The command bound to a button that was clicked alone.
    Command(Command),
    /// The shortcut code bound to a meta button and the button clicked after it.
    Shortcut(u8),
}

} // verus!
