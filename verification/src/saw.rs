//! Naive (aliased) sawtooth timbre.

use vstd::prelude::*;
use crate::fixed::{TURN, UNIT};

verus! {

/// Q15 value of the naive sawtooth at phase `p`: `2·frac(p/2π) − 1`,
/// rising linearly from −1 at the start of the cycle to just below +1
/// at its top.
pub open spec fn spec_saw(p: int) -> int {
    (2 * UNIT * p) / (TURN as int) - UNIT
}

/// The sawtooth stays inside `[-UNIT, UNIT)` over one cycle.
pub proof fn lemma_saw_range(p: int)
    requires
        0 <= p < TURN,
    ensures
        -UNIT <= spec_saw(p) < UNIT,
{
    vstd::arithmetic::div_mod::lemma_div_pos_is_pos(2 * UNIT * p, TURN as int);
    assert(2 * UNIT * p < (TURN as int) * (2 * UNIT)) by (nonlinear_arith)
        requires
            0 <= p < TURN,
            UNIT == 32768,
    ;
    vstd::arithmetic::div_mod::lemma_multiply_divide_lt(2 * UNIT * p, TURN as int, 2 * UNIT);
}

/// A stateless naive sawtooth generator.  The caller keeps the phase
/// wrapped into `[0, TURN)`.
pub struct SawWave;

impl SawWave {
    /// Exact fixed-point sawtooth sample for a wrapped phase.
    pub fn generate(&self, phase: u64) -> (r: i64)
        requires
            phase < TURN,
        ensures
            r == spec_saw(phase as int),
            -UNIT <= r < UNIT,
    {
        proof {
            lemma_saw_range(phase as int);
        }
        let scaled: u64 = (2 * (UNIT as u64) * phase) / TURN;
        (scaled as i64) - UNIT
    }
}

/// The three anchor points of the sawtooth: −1 at phase 0, 0 at π, and
/// one step below +1 at the last representable phase of the cycle.
pub proof fn lemma_saw_endpoints()
    ensures
        spec_saw(0) == -UNIT,
        spec_saw(TURN as int / 2) == 0,
        spec_saw(TURN as int - 1) == UNIT - 1,
{
    assert(2 * UNIT * 0 == 0);
    assert((0int) / (TURN as int) == 0) by {
        vstd::arithmetic::div_mod::lemma_div_of0(TURN as int);
    }
    assert(2 * UNIT * (TURN as int / 2) == UNIT * (TURN as int));
    assert((UNIT * (TURN as int)) / (TURN as int) == UNIT) by {
        vstd::arithmetic::div_mod::lemma_div_by_multiple(UNIT as int, TURN as int);
    }
    let top = TURN as int - 1;
    assert(2 * UNIT * top == (2 * UNIT - 1) * (TURN as int) + (TURN as int - 2 * UNIT));
    assert((2 * UNIT * top) / (TURN as int) == 2 * UNIT - 1) by {
        vstd::arithmetic::div_mod::lemma_fundamental_div_mod_converse(
            2 * UNIT * top,
            TURN as int,
            2 * UNIT - 1,
            TURN as int - 2 * UNIT,
        );
    }
}

} // verus!
