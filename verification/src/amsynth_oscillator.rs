//! A self-contained oscillator with its own waveform set: sine, pulse
//! with adjustable width, saw, white noise, and a sample-and-hold
//! random source.
//!
//! Unlike the pool's shared generators this oscillator carries its own
//! phase, and the random timbre carries explicit state — a countdown
//! and the last drawn sample — rather than hiding it behind a
//! seemingly pure interface: the held sample is refreshed only when
//! the countdown wraps, about thirty times a second.

use vstd::prelude::*;
use crate::fixed::{TURN, UNIT, div_trunc, div_trunc_i64, lemma_div_trunc_shrink};
use crate::sine::spec_sine;
use crate::utils::{spec_phase_inc, lemma_phase_inc_bounds, hz_to_phase_inc};
use crate::rng::random_at_most;

verus! {

/// The oscillator's own closed timbre set.
#[derive(Clone, Copy, PartialEq, Eq, Structural, Debug)]
pub enum Waveform {
    Sine,
    Pulse,
    Saw,
    Noise,
    Random,
}

/// Q15 pulse value at phase `rads` for a pulse width `pw` (Q15): high
/// while the phase is below `π · pw`.
pub open spec fn spec_pulse(pw: int, rads: int) -> int {
    if rads < pw * 65536 {
        UNIT as int
    } else {
        -UNIT
    }
}

/// Q15 rising saw at phase `rads`: `rads/π − 1`.
pub open spec fn spec_amsynth_saw(rads: int) -> int {
    rads / 65536 - UNIT
}

/// A raw sample scaled by the polarity control.
pub open spec fn spec_polarized(raw: int, polarity: int) -> int {
    div_trunc(raw * polarity, UNIT as int)
}

/// Scaling a unit-range sample by a unit-range polarity stays in
/// unit range.
pub proof fn lemma_polarized_range(raw: int, polarity: int)
    requires
        -UNIT <= raw <= UNIT,
        -UNIT <= polarity <= UNIT,
    ensures
        -UNIT <= spec_polarized(raw, polarity) <= UNIT,
{
    assert(-((UNIT as int) * (UNIT as int)) <= raw * polarity <= (UNIT as int) * (UNIT as int))
        by (nonlinear_arith)
        requires
            -UNIT <= raw <= UNIT,
            -UNIT <= polarity <= UNIT,
    ;
    lemma_div_trunc_shrink(raw * polarity, UNIT as int, UNIT as int);
}

/// The oscillator: a phase accumulator, the held random sample and its
/// countdown, the selected timbre, and the pitch, pulse-width,
/// polarity and oscillator-sync controls.
pub struct AmsynthOscillator {
    pub rads: u64,
    pub random: i64,
    pub rate: u32,
    pub random_count: u32,
    pub waveform: Waveform,
    pub frequency: u64,
    pub pulse_width: i64,
    pub polarity: i64,
    pub sync_frequency: u64,
    pub sync_enabled: bool,
    pub sync_rads: u64,
}

impl AmsynthOscillator {
    /// The oscillator's invariant: wrapped phases, unit-range shaping
    /// controls, a held sample in range, and a sample rate that keeps
    /// the random countdown meaningful.
    pub open spec fn wf(self) -> bool {
        &&& self.rads < TURN
        &&& self.sync_rads < TURN
        &&& self.rate >= 30
        &&& self.frequency < 0x4000_0000
        &&& 0 <= self.pulse_width <= UNIT
        &&& -UNIT <= self.polarity <= UNIT
        &&& -UNIT <= self.random <= UNIT
        &&& self.random_count < 0xffff_ffff
    }

    /// A fresh oscillator at the given sample rate: sine timbre,
    /// concert pitch, full positive polarity, everything else zeroed.
    pub fn new(sample_rate: u32) -> (o: Self)
        requires
            sample_rate >= 30,
        ensures
            o.wf(),
            o.rads == 0,
            o.random == 0,
            o.rate == sample_rate,
            o.random_count == 0,
            o.waveform == Waveform::Sine,
            o.frequency == 440000,
            o.pulse_width == 0,
            o.polarity == UNIT,
            o.sync_frequency == 0,
            !o.sync_enabled,
            o.sync_rads == 0,
    {
        AmsynthOscillator {
            rads: 0,
            random: 0,
            rate: sample_rate,
            random_count: 0,
            waveform: Waveform::Sine,
            frequency: 440000,
            pulse_width: 0,
            polarity: UNIT,
            sync_frequency: 0,
            sync_enabled: false,
            sync_rads: 0,
        }
    }

    /// Select the timbre.
    pub fn set_waveform(&mut self, waveform: Waveform)
        ensures
            *final(self) == (AmsynthOscillator { waveform, ..*old(self) }),
    {
        self.waveform = waveform;
    }

    /// Set the pitch in millihertz.
    pub fn set_frequency(&mut self, freq: u64)
        requires
            freq < 0x4000_0000,
        ensures
            *final(self) == (AmsynthOscillator { frequency: freq, ..*old(self) }),
    {
        self.frequency = freq;
    }

    /// Set the pulse width (Q15 of a half-cycle).
    pub fn set_pulse_width(&mut self, pw: i64)
        requires
            0 <= pw <= UNIT,
        ensures
            *final(self) == (AmsynthOscillator { pulse_width: pw, ..*old(self) }),
    {
        self.pulse_width = pw;
    }

    /// Set the sync pitch in millihertz.
    pub fn set_sync_frequency(&mut self, freq: u64)
        requires
            freq < 0x4000_0000,
        ensures
            *final(self) == (AmsynthOscillator { sync_frequency: freq, ..*old(self) }),
    {
        self.sync_frequency = freq;
    }

    /// Enable or disable oscillator sync.
    pub fn set_sync_enabled(&mut self, enabled: bool)
        ensures
            *final(self) == (AmsynthOscillator { sync_enabled: enabled, ..*old(self) }),
    {
        self.sync_enabled = enabled;
    }

    /// Set the output polarity (Q15, −1 to 1).
    pub fn set_polarity(&mut self, polarity: i64)
        requires
            -UNIT <= polarity <= UNIT,
        ensures
            *final(self) == (AmsynthOscillator { polarity, ..*old(self) }),
    {
        self.polarity = polarity;
    }

    /// The phase accumulator one sample later.
    pub open spec fn spec_advanced_rads(self) -> int {
        (self.rads + spec_phase_inc(self.frequency as int, self.rate as int)) % (TURN as int)
    }

    /// Advance the phase accumulator by one sample.
    fn advance(&mut self)
        requires
            old(self).wf(),
            old(self).frequency < 1000 * (old(self).rate as u64),
        ensures
            *final(self) == (AmsynthOscillator {
                rads: old(self).spec_advanced_rads() as u64,
                ..*old(self)
            }),
            final(self).wf(),
    {
        proof {
            lemma_phase_inc_bounds(self.frequency as int, self.rate as int);
        }
        let inc = hz_to_phase_inc(self.frequency, self.rate);
        let sum = self.rads + inc;
        proof {
            if sum >= TURN {
                vstd::arithmetic::div_mod::lemma_mod_sub_multiples_vanish(
                    sum as int,
                    TURN as int,
                );
                vstd::arithmetic::div_mod::lemma_small_mod((sum - TURN) as nat, TURN as nat);
            } else {
                vstd::arithmetic::div_mod::lemma_small_mod(sum as nat, TURN as nat);
            }
        }
        self.rads = if sum >= TURN {
            sum - TURN
        } else {
            sum
        };
    }

    /// One sine sample at the current phase, then advance.
    fn do_sine(&mut self) -> (r: i64)
        requires
            old(self).wf(),
            old(self).frequency < 1000 * (old(self).rate as u64),
        ensures
            *final(self) == (AmsynthOscillator {
                rads: old(self).spec_advanced_rads() as u64,
                ..*old(self)
            }),
            final(self).wf(),
            r == spec_polarized(spec_sine(old(self).rads as int), old(self).polarity as int),
            -UNIT <= r <= UNIT,
    {
        proof {
            crate::sine::lemma_sine_range(self.rads as int);
            lemma_polarized_range(spec_sine(self.rads as int), self.polarity as int);
        }
        let wave = crate::sine::SineWave {  };
        let raw = wave.generate(self.rads);
        self.advance();
        div_trunc_i64(raw * self.polarity, UNIT)
    }

    /// One pulse sample at the current phase, then advance.
    fn do_square(&mut self) -> (r: i64)
        requires
            old(self).wf(),
            old(self).frequency < 1000 * (old(self).rate as u64),
        ensures
            *final(self) == (AmsynthOscillator {
                rads: old(self).spec_advanced_rads() as u64,
                ..*old(self)
            }),
            final(self).wf(),
            r == spec_polarized(
                spec_pulse(old(self).pulse_width as int, old(self).rads as int),
                old(self).polarity as int,
            ),
            -UNIT <= r <= UNIT,
    {
        proof {
            lemma_polarized_range(
                spec_pulse(self.pulse_width as int, self.rads as int),
                self.polarity as int,
            );
        }
        let raw: i64 = if self.rads < (self.pulse_width as u64) * 65536 {
            UNIT
        } else {
            -UNIT
        };
        self.advance();
        div_trunc_i64(raw * self.polarity, UNIT)
    }

    /// One saw sample at the current phase, then advance.
    fn do_saw(&mut self) -> (r: i64)
        requires
            old(self).wf(),
            old(self).frequency < 1000 * (old(self).rate as u64),
        ensures
            *final(self) == (AmsynthOscillator {
                rads: old(self).spec_advanced_rads() as u64,
                ..*old(self)
            }),
            final(self).wf(),
            r == spec_polarized(spec_amsynth_saw(old(self).rads as int), old(self).polarity as int),
            -UNIT <= r <= UNIT,
    {
        proof {
            vstd::arithmetic::div_mod::lemma_div_pos_is_pos(self.rads as int, 65536);
            vstd::arithmetic::div_mod::lemma_multiply_divide_lt(self.rads as int, 65536, 65536);
            lemma_polarized_range(spec_amsynth_saw(self.rads as int), self.polarity as int);
        }
        let raw: i64 = ((self.rads / 65536) as i64) - UNIT;
        self.advance();
        div_trunc_i64(raw * self.polarity, UNIT)
    }

    /// One white-noise sample: a fresh draw in unit range; the phase
    /// and the held random state are untouched.
    fn do_noise(&mut self) -> (r: i64)
        ensures
            *final(self) == *old(self),
            -UNIT <= r <= UNIT,
    {
        (random_at_most(65536) as i64) - UNIT
    }

    /// One sample-and-hold sample: when the countdown is at zero a new
    /// value is drawn, otherwise the held one is returned unchanged;
    /// the countdown then moves on, wrapping about thirty times a
    /// second.
    fn do_random(&mut self) -> (r: i64)
        requires
            old(self).wf(),
        ensures
            final(self).wf(),
            *final(self) == (AmsynthOscillator {
                random: final(self).random,
                random_count: ((old(self).random_count + 1) as u32 % (old(self).rate / 30)) as u32,
                ..*old(self)
            }),
            old(self).random_count != 0 ==> final(self).random == old(self).random,
            -UNIT <= final(self).random <= UNIT,
            r == final(self).random,
    {
        if self.random_count == 0 {
            self.random = (random_at_most(65536) as i64) - UNIT;
        }
        self.random_count = (self.random_count + 1) % (self.rate / 30);
        self.random
    }

    /// One sample of the selected timbre.  The periodic timbres sample
    /// at the current phase and then advance it; the noise and random
    /// timbres leave the phase untouched.
    pub fn generate(&mut self) -> (r: i64)
        requires
            old(self).wf(),
            old(self).frequency < 1000 * (old(self).rate as u64),
        ensures
            final(self).wf(),
            -UNIT <= r <= UNIT,
            old(self).waveform == Waveform::Sine ==> *final(self) == (AmsynthOscillator {
                rads: old(self).spec_advanced_rads() as u64,
                ..*old(self)
            }) && r == spec_polarized(
                spec_sine(old(self).rads as int),
                old(self).polarity as int,
            ),
            old(self).waveform == Waveform::Pulse ==> *final(self) == (AmsynthOscillator {
                rads: old(self).spec_advanced_rads() as u64,
                ..*old(self)
            }) && r == spec_polarized(
                spec_pulse(old(self).pulse_width as int, old(self).rads as int),
                old(self).polarity as int,
            ),
            old(self).waveform == Waveform::Saw ==> *final(self) == (AmsynthOscillator {
                rads: old(self).spec_advanced_rads() as u64,
                ..*old(self)
            }) && r == spec_polarized(
                spec_amsynth_saw(old(self).rads as int),
                old(self).polarity as int,
            ),
            old(self).waveform == Waveform::Noise ==> *final(self) == *old(self),
            old(self).waveform == Waveform::Random ==> {
                &&& *final(self) == (AmsynthOscillator {
                    random: final(self).random,
                    random_count: ((old(self).random_count + 1) as u32 % (old(self).rate
                        / 30)) as u32,
                    ..*old(self)
                })
                &&& (old(self).random_count != 0 ==> final(self).random == old(self).random)
                &&& r == final(self).random
            },
    {
        match self.waveform {
            Waveform::Sine => self.do_sine(),
            Waveform::Pulse => self.do_square(),
            Waveform::Saw => self.do_saw(),
            Waveform::Noise => self.do_noise(),
            Waveform::Random => self.do_random(),
        }
    }

    /// Zero the phase accumulators and the sample-and-hold state.
    pub fn reset(&mut self)
        ensures
            *final(self) == (AmsynthOscillator {
                rads: 0,
                random: 0,
                random_count: 0,
                sync_rads: 0,
                ..*old(self)
            }),
    {
        self.rads = 0;
        self.random = 0;
        self.random_count = 0;
        self.sync_rads = 0;
    }
}

} // verus!
