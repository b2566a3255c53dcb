//! A modular synthesizer core, verified.
//!
//! A [`rack::Rack`] holds modules addressed by tag together with the four
//! tag-indexed stores it owns: controls, outputs, state and buffers. Tags
//! are handed out in append order and a module may only read modules
//! appended before it, so one pass in ascending tag order evaluates a whole
//! sample. Feedback (the plucked string) reads the previous sample from the
//! module's own state.
//!
//! Every scalar is a Q32.32 fixed-point number ([`fixed`]); angles are in
//! turns ([`trig`]). The primitives are the fractional delay line
//! ([`ring`]), the ADSR envelope ([`envelope`]), the biquad, comb and
//! all-pass filters ([`filters`]), the combinators ([`operators`]), wave
//! shapers ([`shaping`]) and free-running oscillators ([`oscillators`]).
//! [`modules`] has a handle and a builder per module kind, [`midi`] turns
//! note messages into actions on a string.
use vstd::prelude::*;

pub mod envelope;
pub mod filters;
pub mod fixed;
pub mod midi;
pub mod modules;
pub mod operators;
pub mod oscillators;
pub mod rack;
pub mod ring;
pub mod shaping;
pub mod trig;

verus! {

} // verus!
