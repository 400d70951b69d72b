//! Naive square timbre with a fixed 50% duty cycle.

use vstd::prelude::*;
use crate::fixed::{TURN, HALF_TURN, UNIT};

verus! {

/// Q15 value of the naive square wave at phase `p`: +1 on the first
/// half-cycle, −1 on the second.
pub open spec fn spec_square(p: int) -> int {
    if p < HALF_TURN {
        UNIT as int
    } else {
        -UNIT
    }
}

/// A stateless naive square generator.  The caller keeps the phase
/// wrapped into `[0, TURN)`.
pub struct SquareWave;

impl SquareWave {
    /// Exact fixed-point square sample for a wrapped phase.
    pub fn generate(&self, phase: u64) -> (r: i64)
        requires
            phase < TURN,
        ensures
            r == spec_square(phase as int),
            -UNIT <= r <= UNIT,
    {
        if phase < HALF_TURN {
            UNIT
        } else {
            -UNIT
        }
    }
}

} // verus!
