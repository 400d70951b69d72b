//! "Analog" square timbre: a square wave whose edges are linear ramps,
//! modelling a slew-rate-limited transition.

use vstd::prelude::*;
use crate::fixed::{TURN, UNIT, PHASE_PER_Q15};

verus! {

/// Q15 half of the normalized cycle.
pub const HALF_Q15: i64 = 16384;

/// Q15 value of the ramped square at phase `p` for a transition of
/// width `t` (Q15 of a cycle): +1 until half a transition before the
/// midpoint, a falling ramp through the midpoint, −1 until half a
/// transition before the wraparound, then a rising ramp back toward
/// the start of the cycle.
pub open spec fn spec_analog_square(t: int, p: int) -> int {
    let np = p / (PHASE_PER_Q15 as int);
    let tw = t / 2;
    if np < HALF_Q15 - tw {
        UNIT as int
    } else if np < HALF_Q15 + tw {
        UNIT - ((np - (HALF_Q15 - tw)) * 2 * UNIT) / t
    } else if np < 2 * HALF_Q15 - tw {
        -UNIT
    } else {
        -UNIT + ((np - (2 * HALF_Q15 - tw)) * 2 * UNIT) / t
    }
}

/// The normalized phase of a wrapped phase accumulator stays in
/// `[0, UNIT)`.
proof fn lemma_norm_phase(p: int)
    requires
        0 <= p < TURN,
    ensures
        0 <= p / (PHASE_PER_Q15 as int) < 2 * HALF_Q15,
{
    vstd::arithmetic::div_mod::lemma_div_pos_is_pos(p, PHASE_PER_Q15 as int);
    vstd::arithmetic::div_mod::lemma_multiply_divide_lt(p, PHASE_PER_Q15 as int, 32768);
}

/// Over one cycle the ramped square stays inside `[-UNIT, UNIT]`.
pub proof fn lemma_analog_square_range(t: int, p: int)
    requires
        1 <= t <= UNIT,
        0 <= p < TURN,
    ensures
        -UNIT <= spec_analog_square(t, p) <= UNIT,
{
    let np = p / (PHASE_PER_Q15 as int);
    let tw = t / 2;
    lemma_norm_phase(p);
    assert(2 * tw <= t);
    if np < HALF_Q15 - tw {
    } else if np < HALF_Q15 + tw {
        let d = np - (HALF_Q15 - tw);
        assert(0 <= d);
        assert(d * 2 * UNIT < t * (2 * UNIT)) by (nonlinear_arith)
            requires
                0 <= d < t,
        ;
        vstd::arithmetic::div_mod::lemma_div_pos_is_pos(d * 2 * UNIT, t);
        vstd::arithmetic::div_mod::lemma_multiply_divide_lt(d * 2 * UNIT, t, 2 * UNIT);
    } else if np < 2 * HALF_Q15 - tw {
    } else {
        let d = np - (2 * HALF_Q15 - tw);
        assert(0 <= d);
        assert(2 * d < t);
        assert(d * 2 * UNIT < t * UNIT) by (nonlinear_arith)
            requires
                0 <= 2 * d < t,
        ;
        vstd::arithmetic::div_mod::lemma_div_pos_is_pos(d * 2 * UNIT, t);
        vstd::arithmetic::div_mod::lemma_multiply_divide_lt(d * 2 * UNIT, t, UNIT as int);
    }
}

/// A square generator with slew-limited edges.  `transition_time` is
/// the total width of each ramp as a Q15 fraction of the cycle.
pub struct AnalogSquareWave {
    pub transition_time: i64,
}

impl AnalogSquareWave {
    /// A transition width is valid when it is positive and no wider
    /// than the whole cycle.
    pub open spec fn wf(self) -> bool {
        1 <= self.transition_time <= UNIT
    }

    /// The configured transition width.
    pub open spec fn spec_transition_time(self) -> int {
        self.transition_time as int
    }

    /// Construct the timbre; the width is validated at construction
    /// and never changes afterwards.
    pub fn new(transition_time: i64) -> (s: Self)
        requires
            1 <= transition_time <= UNIT,
        ensures
            s.wf(),
            s.spec_transition_time() == transition_time,
    {
        AnalogSquareWave { transition_time }
    }

    /// Exact fixed-point ramped-square sample for a wrapped phase.
    pub fn generate(&self, phase: u64) -> (r: i64)
        requires
            self.wf(),
            phase < TURN,
        ensures
            r == spec_analog_square(self.spec_transition_time(), phase as int),
            -UNIT <= r <= UNIT,
    {
        proof {
            lemma_norm_phase(phase as int);
            lemma_analog_square_range(self.transition_time as int, phase as int);
        }
        let t = self.transition_time;
        let np = (phase / PHASE_PER_Q15) as i64;
        let tw = t / 2;
        if np < HALF_Q15 - tw {
            UNIT
        } else if np < HALF_Q15 + tw {
            UNIT - ((np - (HALF_Q15 - tw)) * 2 * UNIT) / t
        } else if np < 2 * HALF_Q15 - tw {
            -UNIT
        } else {
            -UNIT + ((np - (2 * HALF_Q15 - tw)) * 2 * UNIT) / t
        }
    }
}

} // verus!
