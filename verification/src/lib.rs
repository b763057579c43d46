//! The control core of a sample-accurate software synthesizer.
//!
//! Everything here is discrete and exact: positions are counted in samples,
//! musical time in ticks, envelope levels are fractions of integers. The callers
//! that turn levels and taps into audio evaluate them in the arithmetic of
//! their choice; nothing in this crate depends on it.

pub mod consts;
pub mod cycle;
pub mod delay;
pub mod drums;
pub mod engine;
pub mod envelopes;
pub mod filters;
pub mod pass;
pub mod plaits_voice;
pub mod reverb;
pub mod sequencer;
pub mod subtractive;
pub mod synth;
