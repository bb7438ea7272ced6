//! The three durations that govern classification, and the defaults that
//! the button driver crate ships.

use vstd::prelude::*;
use crate::gesture::Mode;

verus! {

/// The durations of the gesture classifier, in microseconds.
#[derive(Debug, PartialEq, Eq, Copy, Clone, Structural)]
pub struct Timing {
    /// How long a press must last to count as a press.
    pub debounce_duration: u64,
    /// How long after a release another press still joins the same run of
    /// clicks.
    pub multi_click_window: u64,
    /// How long a press must last to become a hold.
    pub hold_threshold: u64,
}

impl Timing {
    /// The durations are in order: the debounce no longer than the
    /// multi-click window, the window no longer than the hold threshold.
    pub open spec fn valid(self) -> bool {
        self.debounce_duration <= self.multi_click_window && self.multi_click_window
            <= self.hold_threshold
    }

    /// Whether the durations are in order.
    pub fn is_valid(&self) -> (b: bool)
        ensures
            b == self.valid(),
    {
        self.debounce_duration <= self.multi_click_window && self.multi_click_window
            <= self.hold_threshold
    }

    /// The driver crate's defaults: 900 µs, 150 ms, 500 ms.
    pub open spec fn standard() -> Timing {
        Timing { debounce_duration: 900, multi_click_window: 150_000, hold_threshold: 500_000 }
    }
}

/// `button_driver::ButtonConfig::<Duration>::default()`, with its three
/// durations converted to whole microseconds and its mode to [`Mode`].
///
/// Trusted: the driver's defaults are a debounce of 900 µs, a release time
/// of 150 ms and a hold time of 500 ms, on a pull-up button. The release
/// time is what this library calls the multi-click window.
#[verifier::external_body]
fn driver_defaults() -> (r: (Timing, Mode))
    ensures
        r.0 == Timing::standard(),
        r.1 == Mode::PullUp,
{
    let config = button_driver::ButtonConfig::<std::time::Duration>::default();
    let timing = Timing {
        debounce_duration: config.debounce.as_micros() as u64,
        multi_click_window: config.release.as_micros() as u64,
        hold_threshold: config.hold.as_micros() as u64,
    };
    match config.mode {
        button_driver::Mode::PullUp => (timing, Mode::PullUp),
        button_driver::Mode::PullDown => (timing, Mode::PullDown),
    }
}

impl Default for Timing {
    /// The driver crate's default durations.
    fn default() -> (timing: Timing)
        ensures
            timing == Timing::standard(),
            timing.valid(),
    {
        driver_defaults().0
    }
}

impl Default for Mode {
    /// The driver crate's default wiring.
    fn default() -> (mode: Mode)
        ensures
            mode == Mode::PullUp,
    {
        driver_defaults().1
    }
}

} // verus!
