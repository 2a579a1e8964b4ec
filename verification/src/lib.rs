//! Loudness metering: samples captured from an input device are carried through a
//! bounded ring buffer, reduced to a window summary, converted to a rounded decibel
//! value and classified into a color band.
//!
//! The capture callback feeds the producer half of the ring and must never block;
//! a polling thread drains the consumer half once per reporting interval. Starting
//! and stopping is decided by a state machine that a single thread owns.

pub mod amp;
pub mod app;
pub mod color;
pub mod decibel;
pub mod handler;
pub mod ring;
pub mod sample;

pub use crate::amp::{Amp, Decibel};
pub use crate::app::{Action, App, Event, Msg, StartError, State, Status, MAILBOX};
pub use crate::color::Color;
pub use crate::handler::{
    Feeder, Handler, InnerHandler, Poller, SampleFormat, INTERVAL, LATENCY, READINGS,
};
pub use crate::ring::push_partial_slice;
pub use crate::sample::{Binary32, Sample};
use crate::color::band_of;
use vstd::prelude::*;

verus! {

/// Receives the readings of a running pipeline, one call per window, in the order
/// in which the windows were drained, on a thread of the pipeline's own. It should
/// return promptly: a slow responder holds up the readings behind it.
pub trait DecibelResponder: Send {
    /// Takes one reading: the rounded decibel value and its color band. The color
    /// is always the band of the value.
    fn decibel(&self, decibel: i32, color: Color)
        requires
            color == band_of(decibel as int),
    ;
}

/// Delivers one reading to the responder, with the color band that belongs to it.
pub fn deliver<R: DecibelResponder + ?Sized>(responder: &R, decibel: i32) {
    responder.decibel(decibel, Color::from_decibel(decibel));
}

} // verus!
