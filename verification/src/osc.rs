//! Oscillator selection.
//!
//! Waveform generation itself is closed-form per-sample floating-point
//! math and lives with the surrounding application; the core only defines
//! which waveform a voice asks for.

use vstd::prelude::*;

verus! {

/// Defines the type of an oscillator.
#[derive(PartialEq, Eq, Structural, Copy, Clone, Debug, Hash)]
pub enum OscillatorType {
    /// A classic continuous tone at a specific frequency: a single
    /// carrier and no harmonics.
    Sine,
    /// A buzzy, strong sound carrying both even and odd harmonics of the
    /// fundamental.
    Saw,
    /// A fairly smooth tonal sound: odd harmonics only, rolling off
    /// quickly.
    Triangle,
    /// Very buzzy and strong: odd harmonics rolling off slowly.
    Square,
}

} // verus!
