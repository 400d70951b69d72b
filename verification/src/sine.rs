//! Sine timbre, as a fixed-point rational approximation.
//!
//! On the first half-cycle the sample is `16·UNIT·u / (5·π² − 4·u)`
//! with `u = x·(π − x)` and every angle measured in phase units; the
//! second half-cycle is the mirror image.  The approximation is exact
//! at 0, π/2 and π, odd-symmetric, and never leaves `[-UNIT, UNIT]`.

use vstd::prelude::*;
use crate::fixed::{TURN, HALF_TURN, QUARTER_TURN, UNIT};

verus! {

/// Q15 sine over the first half-cycle, `p ∈ [0, HALF_TURN]`.
pub open spec fn spec_half_sine(p: int) -> int {
    let u = p * ((HALF_TURN as int) - p);
    (16 * UNIT * u) / (5 * (HALF_TURN as int) * (HALF_TURN as int) - 4 * u)
}

/// Q15 sine over one full cycle, `p ∈ [0, TURN)`.
pub open spec fn spec_sine(p: int) -> int {
    if p < HALF_TURN {
        spec_half_sine(p)
    } else {
        -spec_half_sine(p - HALF_TURN)
    }
}

/// The product `p·(π − p)` that drives the approximation stays within
/// `[0, (π/2)²]` on the half-cycle.
proof fn lemma_u_bounds(p: int)
    requires
        0 <= p <= HALF_TURN,
    ensures
        0 <= p * ((HALF_TURN as int) - p),
        4 * (p * ((HALF_TURN as int) - p)) <= (HALF_TURN as int) * (HALF_TURN as int),
{
    let h = HALF_TURN as int;
    assert(0 <= p * (h - p)) by (nonlinear_arith)
        requires
            0 <= p <= h,
    ;
    assert(4 * (p * (h - p)) <= h * h) by (nonlinear_arith)
        requires
            0 <= p <= h,
    ;
}

/// On the half-cycle the approximation stays within `[0, UNIT]`.
pub proof fn lemma_half_sine_range(p: int)
    requires
        0 <= p <= HALF_TURN,
    ensures
        0 <= spec_half_sine(p) <= UNIT,
{
    let h = HALF_TURN as int;
    let u = p * (h - p);
    let den = 5 * h * h - 4 * u;
    let num = 16 * UNIT * u;
    lemma_u_bounds(p);
    assert(den >= 4 * h * h);
    assert(num >= 0);
    vstd::arithmetic::div_mod::lemma_div_pos_is_pos(num, den);
    assert(num <= den * UNIT) by (nonlinear_arith)
        requires
            num == 16 * UNIT * u,
            den == 5 * h * h - 4 * u,
            4 * u <= h * h,
            u >= 0,
            UNIT == 32768,
    ;
    vstd::arithmetic::div_mod::lemma_multiply_divide_le(num, den, UNIT as int);
}

/// The full-cycle sine stays within `[-UNIT, UNIT]`.
pub proof fn lemma_sine_range(p: int)
    requires
        0 <= p < TURN,
    ensures
        -UNIT <= spec_sine(p) <= UNIT,
{
    if p < HALF_TURN {
        lemma_half_sine_range(p);
    } else {
        lemma_half_sine_range(p - HALF_TURN);
    }
}

/// The anchor values of the sine: 0 at phase 0, exactly +1 at π/2,
/// 0 again at π, and exactly −1 at 3π/2.
pub proof fn lemma_sine_anchors()
    ensures
        spec_sine(0) == 0,
        spec_sine(QUARTER_TURN as int) == UNIT,
        spec_sine(HALF_TURN as int) == 0,
        spec_sine(HALF_TURN as int + QUARTER_TURN as int) == -UNIT,
{
    let h = HALF_TURN as int;
    let q = QUARTER_TURN as int;
    assert((0int) / (5 * h * h) == 0) by {
        vstd::arithmetic::div_mod::lemma_div_of0(5 * h * h);
    }
    assert(q * (h - q) == q * q);
    let u = q * q;
    let den = 5 * h * h - 4 * u;
    assert(16 * UNIT * u == den * UNIT);
    assert((den * UNIT) / den == UNIT) by {
        vstd::arithmetic::div_mod::lemma_div_by_multiple(UNIT as int, den);
    }
}

/// Odd symmetry: reflecting the phase through the cycle's midpoint
/// negates the sample.
pub proof fn lemma_sine_odd(p: int)
    requires
        0 < p < TURN,
    ensures
        spec_sine((TURN as int) - p) == -spec_sine(p),
{
    let h = HALF_TURN as int;
    if p < h {
        assert((TURN as int) - p - h == h - p);
        assert((h - p) * (h - (h - p)) == p * (h - p)) by (nonlinear_arith);
    } else if p == h {
        assert((0int) * (h - 0) == 0) by (nonlinear_arith);
        assert((16 * UNIT * 0) / (5 * h * h - 4 * 0) == 0) by {
            vstd::arithmetic::div_mod::lemma_div_of0(5 * h * h);
        }
    } else {
        let p2 = p - h;
        assert((TURN as int) - p == h - p2);
        assert((h - p2) * (h - (h - p2)) == p2 * (h - p2)) by (nonlinear_arith);
    }
}

/// A stateless sine generator.  The caller keeps the phase wrapped
/// into `[0, TURN)`.
pub struct SineWave;

impl SineWave {
    /// Exact fixed-point sine sample for a wrapped phase.
    pub fn generate(&self, phase: u64) -> (r: i64)
        requires
            phase < TURN,
        ensures
            r == spec_sine(phase as int),
            -UNIT <= r <= UNIT,
    {
        if phase < HALF_TURN {
            half_sine(phase)
        } else {
            -half_sine(phase - HALF_TURN)
        }
    }
}

/// Evaluate the half-cycle approximation in 128-bit arithmetic, where
/// the numerator and denominator both fit with room to spare.
fn half_sine(p: u64) -> (r: i64)
    requires
        p <= HALF_TURN,
    ensures
        r == spec_half_sine(p as int),
        0 <= r <= UNIT,
{
    proof {
        lemma_u_bounds(p as int);
        lemma_half_sine_range(p as int);
    }
    let u: u128 = (p as u128) * ((HALF_TURN - p) as u128);
    let den: u128 = 5 * (HALF_TURN as u128) * (HALF_TURN as u128) - 4 * u;
    let num: u128 = 16 * (UNIT as u128) * u;
    proof {
        let h = HALF_TURN as int;
        let ui = (p as int) * (h - p as int);
        assert(den == 5 * h * h - 4 * ui);
        assert(num == 16 * UNIT * ui);
        assert(num <= den * UNIT);
        vstd::arithmetic::div_mod::lemma_div_pos_is_pos(num as int, den as int);
        vstd::arithmetic::div_mod::lemma_multiply_divide_le(num as int, den as int, UNIT as int);
    }
    (num / den) as i64
}

} // verus!
