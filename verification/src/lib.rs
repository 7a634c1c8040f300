//! A real-time-safe wavetable synthesis core.
//!
//! The crate holds the parts of a tone generator that must be right on
//! every call: the oscillator that turns time into a position within one
//! cycle, the sample sources that turn such a position into an amplitude,
//! the routine that fills an interleaved output buffer, and the order in
//! which a stream is brought up and torn down.
//!
//! Phases are exact: an oscillator counts whole ticks out of a fixed number
//! of ticks per cycle, so no rounding error can accumulate however long a
//! stream plays. Amplitudes are opaque to the crate; it moves them from a
//! table to a buffer and never computes with them.

pub mod callback;
pub mod config;
pub mod lifecycle;
pub mod oscillator;
pub mod phase;
pub mod source;
