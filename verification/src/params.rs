//! Host-facing parameter values: the selected timbre, output gain and
//! tuning reference.
//!
//! The host's parameter-automation machinery lives outside the
//! library; what arrives here are the plain current values.

use vstd::prelude::*;
use crate::fixed::UNIT;

verus! {

/// The closed set of selectable timbres.
#[derive(Clone, Copy, PartialEq, Eq, Structural, Debug)]
pub enum Waveform {
    Sine,
    Saw,
    Square,
    AnalogSaw,
    VASaw,
    AnalogSquare,
    VASquare,
    VintageSaw,
}

/// The synthesizer's control values: selected timbre, output gain in
/// Q15, and the tuning reference in millihertz (what the A above
/// middle C is tuned to).
pub struct VariableSynthParams {
    pub waveform: Waveform,
    pub gain: i64,
    pub tuning: u64,
}

impl VariableSynthParams {
    /// Gain stays within unity; tuning stays within the range the
    /// host's tuning control offers, 20 Hz to 880 Hz.
    pub open spec fn wf(self) -> bool {
        &&& 0 <= self.gain <= UNIT
        &&& 20000 <= self.tuning <= 880000
    }

    /// Whether the selected timbre differs from the previously
    /// observed selection, so that a pool rebuild is triggered by the
    /// edge of a change rather than by comparison against a fixed
    /// default.
    pub fn update_waveform(&self, last_observed: Waveform) -> (changed: bool)
        ensures
            changed == (self.waveform != last_observed),
    {
        self.waveform != last_observed
    }
}

impl Default for VariableSynthParams {
    /// A sine timbre at half gain, tuned to concert pitch.
    fn default() -> (s: Self)
        ensures
            s.wf(),
            s.waveform == Waveform::Sine,
            s.gain == 16384,
            s.tuning == 440000,
    {
        VariableSynthParams { waveform: Waveform::Sine, gain: 16384, tuning: 440000 }
    }
}

} // verus!
