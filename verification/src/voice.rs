//! One voice: a phase-accumulating slot bound to the pool's shared
//! generator.
//!
//! A voice is either idle or sounding.  While sounding it emits the
//! generator's sample at its current phase and then advances the phase
//! by the frequency-dependent increment, wrapping once past a full
//! turn.  While idle it emits silence and its phase is frozen, so that
//! a reused voice continues where it left off without an audible
//! discontinuity.

use vstd::prelude::*;
use crate::fixed::{TURN, wrap_add};
use crate::utils::{spec_phase_inc, lemma_phase_inc_bounds, hz_to_phase_inc};
use crate::synth::WaveformGenerator;

verus! {

/// One reusable voice slot.  `note` records the MIDI note the voice
/// was last allocated for; it is meaningful while the voice sounds.
#[derive(Clone, Copy)]
pub struct Voice {
    pub phase: u64,
    pub frequency: u64,
    pub is_active: bool,
    pub note: u8,
}

impl Voice {
    /// A voice's phase always stays inside one cycle, and its
    /// frequency stays far below the phase-increment overflow limit.
    pub open spec fn wf(self) -> bool {
        &&& self.phase < TURN
        &&& self.frequency < 0x4000_0000
    }

    /// The voice one sample later: idle voices are untouched, and a
    /// sounding voice's phase advances by one increment, wrapped into
    /// the cycle.
    pub open spec fn spec_stepped(self, sample_rate: int) -> Voice {
        if self.is_active {
            Voice {
                phase: (((self.phase + spec_phase_inc(
                    self.frequency as int,
                    sample_rate,
                )) % (TURN as int)) as u64),
                ..self
            }
        } else {
            self
        }
    }

    /// The voice `n` samples later, in closed form: the phase has
    /// moved by `n` increments, wrapped into the cycle.
    pub open spec fn spec_after(self, sample_rate: int, n: nat) -> Voice {
        if self.is_active {
            Voice {
                phase: (((self.phase + n * spec_phase_inc(
                    self.frequency as int,
                    sample_rate,
                )) % (TURN as int)) as u64),
                ..self
            }
        } else {
            self
        }
    }

    /// Advancing the closed form one more step lands on the closed
    /// form of the next count.
    pub proof fn lemma_after_step(self, sample_rate: int, n: nat)
        requires
            self.wf(),
            sample_rate >= 1,
            self.is_active ==> self.frequency < 1000 * sample_rate,
        ensures
            self.spec_after(sample_rate, n).spec_stepped(sample_rate) == self.spec_after(
                sample_rate,
                n + 1,
            ),
    {
        if self.is_active {
            let inc = spec_phase_inc(self.frequency as int, sample_rate);
            lemma_phase_inc_bounds(self.frequency as int, sample_rate);
            let base = self.phase as int;
            assert((n + 1) * inc == n * inc + inc) by (nonlinear_arith);
            assert(n * inc >= 0) by (nonlinear_arith)
                requires
                    inc >= 0,
            ;
            vstd::arithmetic::div_mod::lemma_mod_bound(base + n * inc, TURN as int);
            assert(((base + n * inc) % (TURN as int) + inc) % (TURN as int) == (base + n * inc
                + inc) % (TURN as int)) by {
                vstd::arithmetic::div_mod::lemma_add_mod_noop(
                    base + n * inc,
                    inc,
                    TURN as int,
                );
                vstd::arithmetic::div_mod::lemma_small_mod(inc as nat, TURN as nat);
            }
        }
    }

    /// After zero samples the voice is unchanged.
    pub proof fn lemma_after_zero(self, sample_rate: int)
        requires
            self.wf(),
        ensures
            self.spec_after(sample_rate, 0) == self,
    {
        if self.is_active {
            assert((0 as nat) * spec_phase_inc(self.frequency as int, sample_rate) == 0)
                by (nonlinear_arith);
            vstd::arithmetic::div_mod::lemma_small_mod(self.phase as nat, TURN as nat);
        }
    }

    /// However many samples a sounding voice advances, its phase stays
    /// inside `[0, 2π)` — it neither drifts out of the cycle nor
    /// escapes the wrap.
    pub proof fn lemma_phase_stays_in_cycle(self, sample_rate: int, n: nat)
        requires
            self.wf(),
            sample_rate >= 1,
            self.is_active ==> self.frequency < 1000 * sample_rate,
        ensures
            self.spec_after(sample_rate, n).wf(),
            0 <= self.spec_after(sample_rate, n).phase < TURN,
    {
        if self.is_active {
            let inc = spec_phase_inc(self.frequency as int, sample_rate);
            lemma_phase_inc_bounds(self.frequency as int, sample_rate);
            assert(n * inc >= 0) by (nonlinear_arith)
                requires
                    inc >= 0,
            ;
            vstd::arithmetic::div_mod::lemma_mod_bound(
                self.phase as int + n * inc,
                TURN as int,
            );
        }
    }

    /// A fresh, idle voice at phase zero, defaulting to concert pitch.
    pub fn new() -> (v: Voice)
        ensures
            v.wf(),
            !v.is_active,
            v.phase == 0,
            v.frequency == 440000,
            v.note == 69,
    {
        Voice { phase: 0, frequency: 440000, is_active: false, note: 69 }
    }

    /// Retarget the voice to a new frequency (in millihertz).
    pub fn set_frequency(&mut self, frequency: u64)
        requires
            frequency < 0x4000_0000,
        ensures
            *final(self) == (Voice { frequency, ..*old(self) }),
    {
        self.frequency = frequency;
    }

    /// The voice's current frequency in millihertz.
    pub fn get_frequency(&self) -> (f: u64)
        ensures
            f == self.frequency,
    {
        self.frequency
    }

    /// Flip the voice between idle and sounding.
    pub fn set_active(&mut self, active: bool)
        ensures
            *final(self) == (Voice { is_active: active, ..*old(self) }),
    {
        self.is_active = active;
    }

    /// Whether the voice is sounding.
    pub fn is_active(&self) -> (a: bool)
        ensures
            a == self.is_active,
    {
        self.is_active
    }

    /// One sample of this voice: silence while idle, the generator's
    /// sample at the current phase while sounding, with the phase then
    /// advanced by one wrapped increment.
    pub fn generate_sample(&mut self, generator: &WaveformGenerator, sample_rate: u32) -> (s: i64)
        requires
            old(self).wf(),
            generator.wf(),
            sample_rate >= 1,
            old(self).is_active ==> old(self).frequency < 1000 * (sample_rate as u64),
        ensures
            *final(self) == old(self).spec_stepped(sample_rate as int),
            final(self).wf(),
            !old(self).is_active ==> s == 0 && *final(self) == *old(self),
            old(self).is_active ==> generator.sample_ok(old(self).phase as int, s as int),
            old(self).is_active && generator.is_deterministic() ==> s == generator.spec_sample(
                old(self).phase as int,
            ),
            -generator.sample_bound() <= s <= generator.sample_bound(),
    {
        proof {
            generator.lemma_sample_bound_at_least_unit();
        }
        if !self.is_active {
            return 0;
        }
        let s = generator.generate(self.phase);
        proof {
            lemma_phase_inc_bounds(self.frequency as int, sample_rate as int);
        }
        let inc = hz_to_phase_inc(self.frequency, sample_rate);
        self.phase = wrap_add(self.phase, inc);
        s
    }
}

} // verus!
