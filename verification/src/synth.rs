//! The closed set of waveform generators, dispatched as a tagged
//! variant: the variant set is fixed, and per-sample dispatch must not
//! go through open-ended dynamic calls.

use vstd::prelude::*;
use crate::fixed::{TURN, UNIT, PHASE_PER_Q15};
use crate::params::Waveform;
use crate::sine::{SineWave, spec_sine};
use crate::saw::{SawWave, spec_saw};
use crate::square::{SquareWave, spec_square};
use crate::analogsaw::{AnalogSawWave, spec_analog_saw_shape, analog_saw_jittered};
use crate::analogsquare::{AnalogSquareWave, spec_analog_square};
use crate::vasaw::{VASawWave, spec_bl_saw_out, bl_saw_jittered, TWO_OVER_PI_Q15};
use crate::vasquare::{VASquareWave, spec_bl_square_out, bl_square_jittered, FOUR_OVER_PI_Q15};
use crate::vintagesaw::{VintageSaw, spec_vintage, VINTAGE_A};

verus! {

/// One timbre with its construction parameters.  A generator is built
/// once per timbre selection, never mutated, and shared read-only by
/// every voice of the pool.
pub enum WaveformGenerator {
    Sine(SineWave),
    Saw(SawWave),
    Square(SquareWave),
    AnalogSaw(AnalogSawWave),
    VASaw(VASawWave),
    AnalogSquare(AnalogSquareWave),
    VASquare(VASquareWave),
    VintageSaw(VintageSaw),
}

impl WaveformGenerator {
    /// Construction-time validity of the variant's parameters.
    pub open spec fn wf(self) -> bool {
        match self {
            WaveformGenerator::AnalogSaw(w) => w.wf(),
            WaveformGenerator::VASaw(w) => w.wf(),
            WaveformGenerator::AnalogSquare(w) => w.wf(),
            WaveformGenerator::VASquare(w) => w.wf(),
            _ => true,
        }
    }

    /// Whether this timbre draws no randomness: such a timbre is a
    /// pure function of the phase, and renders reproduce exactly.
    pub open spec fn is_deterministic(self) -> bool {
        match self {
            WaveformGenerator::AnalogSaw(w) => w.jitter == 0,
            WaveformGenerator::VASaw(w) => w.jitter == 0,
            WaveformGenerator::VASquare(w) => w.jitter == 0,
            _ => true,
        }
    }

    /// The sample this timbre produces at a wrapped phase `p`, when no
    /// jitter perturbs the call.
    pub open spec fn spec_sample(self, p: int) -> int {
        match self {
            WaveformGenerator::Sine(_) => spec_sine(p),
            WaveformGenerator::Saw(_) => spec_saw(p),
            WaveformGenerator::Square(_) => spec_square(p),
            WaveformGenerator::AnalogSaw(w) => spec_analog_saw_shape(
                w.sharpness_half as int,
                w.asymmetry as int,
                p / (PHASE_PER_Q15 as int),
            ),
            WaveformGenerator::VASaw(w) => spec_bl_saw_out(
                w.num_harmonics as int,
                w.dc_offset as int,
                p,
            ),
            WaveformGenerator::AnalogSquare(w) => spec_analog_square(
                w.transition_time as int,
                p,
            ),
            WaveformGenerator::VASquare(w) => spec_bl_square_out(w.num_harmonics as int, p),
            WaveformGenerator::VintageSaw(_) => spec_vintage(p),
        }
    }

    /// The magnitude bound every sample of this timbre respects: one
    /// unit for the unit-range timbres, slightly more for the vintage
    /// curve, and the partial-sum worst case for the band-limited
    /// series.
    pub open spec fn sample_bound(self) -> int {
        match self {
            WaveformGenerator::VASaw(w) => (w.num_harmonics as int) * TWO_OVER_PI_Q15 + UNIT,
            WaveformGenerator::VASquare(w) => (w.num_harmonics as int) * FOUR_OVER_PI_Q15,
            WaveformGenerator::VintageSaw(_) => (VINTAGE_A - UNIT) as int,
            _ => UNIT as int,
        }
    }

    /// What any call at wrapped phase `p` may return: the exact sample
    /// for a jitter-free timbre, or the shape at some phase within the
    /// configured jitter width of `p` otherwise.
    pub open spec fn sample_ok(self, p: int, r: int) -> bool {
        match self {
            WaveformGenerator::AnalogSaw(w) => analog_saw_jittered(
                w.sharpness_half as int,
                w.asymmetry as int,
                w.jitter as int,
                p / (PHASE_PER_Q15 as int),
                r,
            ),
            WaveformGenerator::VASaw(w) => bl_saw_jittered(
                w.num_harmonics as int,
                w.dc_offset as int,
                w.jitter as int,
                p,
                r,
            ),
            WaveformGenerator::VASquare(w) => bl_square_jittered(
                w.num_harmonics as int,
                w.jitter as int,
                p,
                r,
            ),
            _ => r == self.spec_sample(p),
        }
    }

    /// Every timbre's sample bound is at least one unit, so a silent
    /// voice's zero contribution is always within it.
    pub proof fn lemma_sample_bound_at_least_unit(self)
        requires
            self.wf(),
        ensures
            self.sample_bound() >= UNIT,
    {
        match self {
            WaveformGenerator::VASaw(w) => {
                assert((w.num_harmonics as int) * TWO_OVER_PI_Q15 >= 0) by (nonlinear_arith)
                    requires
                        w.num_harmonics >= 1,
                ;
            },
            WaveformGenerator::VASquare(w) => {
                assert((w.num_harmonics as int) * FOUR_OVER_PI_Q15 >= FOUR_OVER_PI_Q15)
                    by (nonlinear_arith)
                    requires
                        w.num_harmonics >= 1,
                ;
            },
            _ => {},
        }
    }

    /// Every timbre's sample bound is comfortably below the range
    /// where a whole pool's sum could overflow.
    pub proof fn lemma_sample_bound_at_most(self)
        requires
            self.wf(),
        ensures
            self.sample_bound() <= 43000000,
    {
        match self {
            WaveformGenerator::VASaw(w) => {
                assert((w.num_harmonics as int) * TWO_OVER_PI_Q15 <= 1024 * TWO_OVER_PI_Q15)
                    by (nonlinear_arith)
                    requires
                        w.num_harmonics <= 1024,
                ;
            },
            WaveformGenerator::VASquare(w) => {
                assert((w.num_harmonics as int) * FOUR_OVER_PI_Q15 <= 1024 * FOUR_OVER_PI_Q15)
                    by (nonlinear_arith)
                    requires
                        w.num_harmonics <= 1024,
                ;
            },
            _ => {},
        }
    }

    /// One sample of the selected timbre at a wrapped phase.  The
    /// phase-to-sample dispatch happens once per call over the closed
    /// variant set.
    pub fn generate(&self, phase: u64) -> (r: i64)
        requires
            self.wf(),
            phase < TURN,
        ensures
            self.sample_ok(phase as int, r as int),
            self.is_deterministic() ==> r == self.spec_sample(phase as int),
            -self.sample_bound() <= r <= self.sample_bound(),
    {
        proof {
            vstd::arithmetic::div_mod::lemma_small_mod(phase as nat, TURN as nat);
        }
        match self {
            WaveformGenerator::Sine(w) => w.generate(phase),
            WaveformGenerator::Saw(w) => w.generate(phase),
            WaveformGenerator::Square(w) => w.generate(phase),
            WaveformGenerator::AnalogSaw(w) => w.generate(phase),
            WaveformGenerator::VASaw(w) => w.generate(phase),
            WaveformGenerator::AnalogSquare(w) => w.generate(phase),
            WaveformGenerator::VASquare(w) => w.generate(phase),
            WaveformGenerator::VintageSaw(w) => w.generate(phase),
        }
    }
}

/// The generator a timbre selection stands for, with the library's
/// construction parameters for each.
pub open spec fn spec_default_generator(waveform: Waveform) -> WaveformGenerator {
    match waveform {
        Waveform::Sine => WaveformGenerator::Sine(SineWave {  }),
        Waveform::Saw => WaveformGenerator::Saw(SawWave {  }),
        Waveform::Square => WaveformGenerator::Square(SquareWave {  }),
        Waveform::AnalogSaw => WaveformGenerator::AnalogSaw(
            AnalogSawWave { sharpness_half: 3, asymmetry: 19661, jitter: 328 },
        ),
        Waveform::VASaw => WaveformGenerator::VASaw(
            VASawWave { sample_rate: 44100, num_harmonics: 10, dc_offset: 1638, jitter: 33 },
        ),
        Waveform::AnalogSquare => WaveformGenerator::AnalogSquare(
            AnalogSquareWave { transition_time: 3277 },
        ),
        Waveform::VASquare => WaveformGenerator::VASquare(
            VASquareWave { num_harmonics: 3, jitter: 33 },
        ),
        Waveform::VintageSaw => WaveformGenerator::VintageSaw(VintageSaw {  }),
    }
}

/// Build the generator for a timbre selection: a sharpness of 1.5 and
/// an asymmetry of 0.6 for the analog saw, ten harmonics with a 5% DC
/// offset for the band-limited saw, a 10% transition for the analog
/// square, and three harmonics for the band-limited square, each with
/// a light jitter where the timbre calls for one.
pub fn create_waveform(waveform: Waveform) -> (g: WaveformGenerator)
    ensures
        g == spec_default_generator(waveform),
        g.wf(),
{
    match waveform {
        Waveform::Sine => WaveformGenerator::Sine(SineWave {  }),
        Waveform::Saw => WaveformGenerator::Saw(SawWave {  }),
        Waveform::Square => WaveformGenerator::Square(SquareWave {  }),
        Waveform::AnalogSaw => WaveformGenerator::AnalogSaw(AnalogSawWave::new(3, 19661, 328)),
        Waveform::VASaw => WaveformGenerator::VASaw(VASawWave::new(44100, 10, 1638, 33)),
        Waveform::AnalogSquare => WaveformGenerator::AnalogSquare(AnalogSquareWave::new(3277)),
        Waveform::VASquare => WaveformGenerator::VASquare(VASquareWave::new(3, 33)),
        Waveform::VintageSaw => WaveformGenerator::VintageSaw(VintageSaw::new()),
    }
}

} // verus!
