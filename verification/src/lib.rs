//! A signal codec engine for sending data over narrowband audio channels.
//!
//! Everything is computed in fixed-point integer arithmetic: an audio sample
//! is an `i32` in `[-32768, 32768]`, where `32768` stands for full scale.
//! The crate provides phase-continuous tone oscillators with linear fade
//! envelopes, a Goertzel single-frequency magnitude detector, a dual-tone
//! (DTMF) codec, a timing-based Morse codec, and the chunk-buffering glue
//! that connects fixed-size analysis windows to variable-size audio
//! callbacks.

pub mod dtmf;
pub mod goertzel;
pub mod math;
pub mod misc;
pub mod sequence;
pub mod morse;
pub mod stream;
pub mod tone;
pub mod trig;
pub mod windows;

use vstd::prelude::*;

verus! {

/// One full-scale amplitude unit: oscillators emit samples in
/// `[-AMP_SCALE, AMP_SCALE]`.
pub const AMP_SCALE: i32 = 32768;

} // verus!
