//! Button gestures and chords.
//!
//! Raw pressed/released samples of a set of buttons are classified, per
//! channel, into gestures: click, double click, triple click, holding, held.
//! The gestures of all channels are then resolved, in registration order,
//! into packets: a media command for a click alone, a shortcut code for a
//! click that follows the click of a meta button.
//!
//! - [`button`], [`media`], [`gesture`]: identifiers, commands, levels,
//!   gestures and packets.
//! - [`timing`]: the durations that govern classification.
//! - [`classifier`]: the per-channel state machine; [`presses`] states what
//!   it gives for short presses, runs of clicks and holds.
//! - [`tables`], [`resolver`]: the lookup tables and the chord state
//!   machine.
//! - [`config`], [`dispatch`]: a validated configuration and the tick that
//!   ties the classifiers to the resolver.
//!
//! All times are microseconds of one monotonic clock that the caller reads.
//! The library reads no pins and no clock and sends nothing: the caller
//! samples, calls [`dispatch::Dispatcher::tick`] and forwards the packets.

pub mod button;
pub mod classifier;
pub mod config;
pub mod dispatch;
pub mod gesture;
pub mod media;
pub mod presses;
pub mod resolver;
pub mod tables;
pub mod timing;
