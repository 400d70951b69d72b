//! "Vintage" saw timbre: a decaying exponential derived from the phase
//! itself.
//!
//! The shaping parameters are recomputed from the input phase on every
//! call: with `φ` the phase in radians and `m = max(φ, ε)` a guard away
//! from zero, the time constant is `T = 1/m` and the decay rate
//! `b = 5·m`, so that `b·T == 5` and the output is
//! `a·e^(−b·φ) + (1 − a)` with `a = −2/(e^(−5) − 1)`.  The curve starts
//! at +1 for phase 0 and decays toward `1 − a ≈ −1.014`.

use vstd::prelude::*;
use crate::fixed::{TURN, UNIT};

verus! {

/// `a = 2/(1 − e^(−5))` in Q15.
pub const VINTAGE_A: i64 = 65981;

/// `2π` in Q15.
pub const TWO_PI_Q15: u64 = 205887;

/// The guard `ε = 0.01` radians in Q15.
pub const VINTAGE_EPS: i64 = 328;

/// Q15 of `e^(−k)` for integer `k`; zero from `k = 12` on, where the
/// true value is below half a Q15 step.
pub open spec fn spec_exp_int(k: int) -> int {
    if k <= 0 {
        UNIT as int
    } else if k == 1 {
        12055
    } else if k == 2 {
        4435
    } else if k == 3 {
        1631
    } else if k == 4 {
        600
    } else if k == 5 {
        221
    } else if k == 6 {
        81
    } else if k == 7 {
        30
    } else if k == 8 {
        11
    } else if k == 9 {
        4
    } else if k == 10 {
        2
    } else if k == 11 {
        1
    } else {
        0
    }
}

/// Q15 of `e^(−f/UNIT)` for a fractional argument `f ∈ [0, UNIT)`, by
/// the alternating series truncated after the fourth power.
pub open spec fn spec_exp_frac(f: int) -> int {
    let f2 = (f * f) / (UNIT as int);
    let f3 = (f2 * f) / (UNIT as int);
    let f4 = (f3 * f) / (UNIT as int);
    UNIT - f + f2 / 2 - f3 / 6 + f4 / 24
}

/// Q15 of `e^(−x/UNIT)` for any nonnegative Q15 argument: the integer
/// part from the table, the fractional part from the series.
pub open spec fn spec_exp_neg(x: int) -> int {
    if x >= 12 * UNIT {
        0
    } else {
        (spec_exp_int(x / (UNIT as int)) * spec_exp_frac(x % (UNIT as int))) / (UNIT as int)
    }
}

/// The fractional factor stays within `[0, UNIT]`.
proof fn lemma_exp_frac_range(f: int)
    requires
        0 <= f < UNIT,
    ensures
        0 <= spec_exp_frac(f) <= UNIT,
{
    let f2 = (f * f) / (UNIT as int);
    let f3 = (f2 * f) / (UNIT as int);
    let f4 = (f3 * f) / (UNIT as int);
    assert(f * f <= UNIT * f) by (nonlinear_arith)
        requires
            0 <= f < UNIT,
    ;
    vstd::arithmetic::div_mod::lemma_div_pos_is_pos(f * f, UNIT as int);
    vstd::arithmetic::div_mod::lemma_multiply_divide_le(f * f, UNIT as int, f);
    assert(0 <= f2 <= f);
    assert(f2 * f <= UNIT * f2) by (nonlinear_arith)
        requires
            0 <= f < UNIT,
            0 <= f2,
    ;
    vstd::arithmetic::div_mod::lemma_div_pos_is_pos(f2 * f, UNIT as int);
    vstd::arithmetic::div_mod::lemma_multiply_divide_le(f2 * f, UNIT as int, f2);
    assert(0 <= f3 <= f2);
    assert(f3 * f <= UNIT * f3) by (nonlinear_arith)
        requires
            0 <= f < UNIT,
            0 <= f3,
    ;
    vstd::arithmetic::div_mod::lemma_div_pos_is_pos(f3 * f, UNIT as int);
    vstd::arithmetic::div_mod::lemma_multiply_divide_le(f3 * f, UNIT as int, f3);
    assert(0 <= f4 <= f3);
    assert(f3 / 6 <= f2 / 6) by {
        vstd::arithmetic::div_mod::lemma_div_is_ordered(f3, f2, 6);
    }
    assert(f2 / 6 <= f2 / 2) by {
        vstd::arithmetic::div_mod::lemma_div_is_ordered_by_denominator(f2, 2, 6);
    }
    assert(f4 / 24 <= f3 / 24) by {
        vstd::arithmetic::div_mod::lemma_div_is_ordered(f4, f3, 24);
    }
    assert(f3 / 24 <= f3 / 6) by {
        vstd::arithmetic::div_mod::lemma_div_is_ordered_by_denominator(f3, 6, 24);
    }
    assert(f2 / 2 <= f / 2) by {
        vstd::arithmetic::div_mod::lemma_div_is_ordered(f2, f, 2);
    }
    assert(f / 2 <= f);
    assert(f4 / 24 >= 0) by {
        vstd::arithmetic::div_mod::lemma_div_pos_is_pos(f4, 24);
    }
    assert(f3 / 6 >= 0) by {
        vstd::arithmetic::div_mod::lemma_div_pos_is_pos(f3, 6);
    }
    assert(f2 / 2 >= 0) by {
        vstd::arithmetic::div_mod::lemma_div_pos_is_pos(f2, 2);
    }
}

/// The whole decaying exponential stays within `[0, UNIT]`.
pub proof fn lemma_exp_neg_range(x: int)
    requires
        0 <= x,
    ensures
        0 <= spec_exp_neg(x) <= UNIT,
{
    if x < 12 * UNIT {
        let k = x / (UNIT as int);
        let f = x % (UNIT as int);
        vstd::arithmetic::div_mod::lemma_mod_division_less_than_divisor(x, UNIT as int);
        vstd::arithmetic::div_mod::lemma_remainder_lower(x, UNIT as int);
        lemma_exp_frac_range(f);
        let ek = spec_exp_int(k);
        let ef = spec_exp_frac(f);
        assert(0 <= ek <= UNIT);
        assert(ek * ef <= UNIT * ef) by (nonlinear_arith)
            requires
                0 <= ek <= UNIT,
                0 <= ef,
        ;
        assert(ek * ef >= 0) by (nonlinear_arith)
            requires
                0 <= ek,
                0 <= ef,
        ;
        vstd::arithmetic::div_mod::lemma_div_pos_is_pos(ek * ef, UNIT as int);
        vstd::arithmetic::div_mod::lemma_multiply_divide_le(ek * ef, UNIT as int, ef);
        assert((ek * ef) / (UNIT as int) <= ef);
    }
}

/// Evaluate the decaying exponential; the bound on the argument covers
/// every exponent the vintage shaper can produce.
fn exp_neg_q15(x: i64) -> (r: i64)
    requires
        0 <= x <= 7000000,
    ensures
        r == spec_exp_neg(x as int),
        0 <= r <= UNIT,
{
    proof {
        lemma_exp_neg_range(x as int);
    }
    if x >= 12 * UNIT {
        return 0;
    }
    let k = x / UNIT;
    let f = x % UNIT;
    let ek: i64 = if k == 0 {
        UNIT
    } else if k == 1 {
        12055
    } else if k == 2 {
        4435
    } else if k == 3 {
        1631
    } else if k == 4 {
        600
    } else if k == 5 {
        221
    } else if k == 6 {
        81
    } else if k == 7 {
        30
    } else if k == 8 {
        11
    } else if k == 9 {
        4
    } else if k == 10 {
        2
    } else {
        1
    };
    proof {
        vstd::arithmetic::div_mod::lemma_mod_division_less_than_divisor(x as int, UNIT as int);
        vstd::arithmetic::div_mod::lemma_remainder_lower(x as int, UNIT as int);
        lemma_exp_frac_range(f as int);
        assert(f * f < 32768 * 32768) by (nonlinear_arith)
            requires
                0 <= f < 32768,
        ;
    }
    let f2 = (f * f) / UNIT;
    proof {
        vstd::arithmetic::div_mod::lemma_div_pos_is_pos(f as int * f as int, UNIT as int);
        assert(f as int * f as int <= (UNIT as int) * (f as int)) by (nonlinear_arith)
            requires
                0 <= f && f < UNIT,
        ;
        vstd::arithmetic::div_mod::lemma_multiply_divide_le(f as int * f as int, UNIT as int, f as int);
        assert(f2 * f < 32768 * 32768) by (nonlinear_arith)
            requires
                0 <= f2 < 32768,
                0 <= f < 32768,
        ;
    }
    let f3 = (f2 * f) / UNIT;
    proof {
        vstd::arithmetic::div_mod::lemma_div_pos_is_pos(f2 as int * f as int, UNIT as int);
        assert(f2 as int * f as int <= (UNIT as int) * (f2 as int)) by (nonlinear_arith)
            requires
                0 <= f && f < UNIT,
                0 <= f2,
        ;
        vstd::arithmetic::div_mod::lemma_multiply_divide_le(f2 as int * f as int, UNIT as int, f2 as int);
        assert(f3 * f < 32768 * 32768) by (nonlinear_arith)
            requires
                0 <= f3 < 32768,
                0 <= f < 32768,
        ;
    }
    let f4 = (f3 * f) / UNIT;
    let ef = UNIT - f + f2 / 2 - f3 / 6 + f4 / 24;
    (ek * ef) / UNIT
}

/// Q15 sample of the vintage saw at a wrapped phase `p`.
pub open spec fn spec_vintage(p: int) -> int {
    let phi = (p * (TWO_PI_Q15 as int)) / (TURN as int);
    let m = if phi < VINTAGE_EPS {
        VINTAGE_EPS as int
    } else {
        phi
    };
    let x = (5 * m * phi) / (UNIT as int);
    (VINTAGE_A * spec_exp_neg(x)) / (UNIT as int) + (UNIT - VINTAGE_A)
}

/// The vintage curve stays within `[1 − a, 1]`, slightly wider than a
/// unit sample on the negative side.
pub proof fn lemma_vintage_range(p: int)
    requires
        0 <= p < TURN,
    ensures
        UNIT - VINTAGE_A <= spec_vintage(p) <= UNIT,
{
    let phi = (p * (TWO_PI_Q15 as int)) / (TURN as int);
    lemma_phi_bounds(p);
    let m = if phi < VINTAGE_EPS {
        VINTAGE_EPS as int
    } else {
        phi
    };
    let x = (5 * m * phi) / (UNIT as int);
    lemma_exponent_bounds(p);
    let e = spec_exp_neg(x);
    lemma_exp_neg_range(x);
    assert(VINTAGE_A * e <= UNIT * VINTAGE_A) by (nonlinear_arith)
        requires
            0 <= e <= UNIT,
    ;
    assert(VINTAGE_A * e >= 0) by (nonlinear_arith)
        requires
            0 <= e,
    ;
    vstd::arithmetic::div_mod::lemma_div_pos_is_pos(VINTAGE_A * e, UNIT as int);
    vstd::arithmetic::div_mod::lemma_multiply_divide_le(
        VINTAGE_A * e,
        UNIT as int,
        VINTAGE_A as int,
    );
}

/// The phase in Q15 radians stays below 2π.
proof fn lemma_phi_bounds(p: int)
    requires
        0 <= p < TURN,
    ensures
        0 <= (p * (TWO_PI_Q15 as int)) / (TURN as int) < TWO_PI_Q15,
{
    assert(p * (TWO_PI_Q15 as int) < (TURN as int) * (TWO_PI_Q15 as int)) by (nonlinear_arith)
        requires
            0 <= p < TURN,
    ;
    assert(p * (TWO_PI_Q15 as int) >= 0) by (nonlinear_arith)
        requires
            0 <= p,
    ;
    vstd::arithmetic::div_mod::lemma_div_pos_is_pos(p * (TWO_PI_Q15 as int), TURN as int);
    vstd::arithmetic::div_mod::lemma_multiply_divide_lt(
        p * (TWO_PI_Q15 as int),
        TURN as int,
        TWO_PI_Q15 as int,
    );
}

/// The exponent `b·φ` the shaper produces never exceeds `5·(2π)²`.
proof fn lemma_exponent_bounds(p: int)
    requires
        0 <= p < TURN,
    ensures
        ({
            let phi = (p * (TWO_PI_Q15 as int)) / (TURN as int);
            let m = if phi < VINTAGE_EPS {
                VINTAGE_EPS as int
            } else {
                phi
            };
            0 <= (5 * m * phi) / (UNIT as int) <= 7000000
        }),
{
    let phi = (p * (TWO_PI_Q15 as int)) / (TURN as int);
    lemma_phi_bounds(p);
    let m = if phi < VINTAGE_EPS {
        VINTAGE_EPS as int
    } else {
        phi
    };
    assert(0 <= 5 * m * phi <= 5 * 205886 * 205886) by (nonlinear_arith)
        requires
            0 <= phi <= 205886,
            0 <= m <= 205886,
    ;
    vstd::arithmetic::div_mod::lemma_div_pos_is_pos(5 * m * phi, UNIT as int);
    assert(5 * m * phi <= (UNIT as int) * 7000000);
    vstd::arithmetic::div_mod::lemma_multiply_divide_le(5 * m * phi, UNIT as int, 7000000);
}

/// Exactly +1 at phase 0: the exponent is zero there, so the decay has
/// not begun.
pub proof fn lemma_vintage_at_zero()
    ensures
        spec_vintage(0) == UNIT,
{
    assert((0int) * (TWO_PI_Q15 as int) == 0) by (nonlinear_arith);
    assert((0int) / (TURN as int) == 0) by {
        vstd::arithmetic::div_mod::lemma_div_of0(TURN as int);
    }
    assert(5 * (VINTAGE_EPS as int) * 0 == 0) by (nonlinear_arith);
    assert((0int) / (UNIT as int) == 0) by {
        vstd::arithmetic::div_mod::lemma_div_of0(UNIT as int);
    }
    assert(spec_exp_neg(0) == ((UNIT as int) * spec_exp_frac(0)) / (UNIT as int));
    assert(spec_exp_frac(0) == UNIT) by {
        vstd::arithmetic::div_mod::lemma_div_of0(UNIT as int);
    }
    assert(((UNIT as int) * (UNIT as int)) / (UNIT as int) == UNIT) by {
        vstd::arithmetic::div_mod::lemma_div_by_multiple(UNIT as int, UNIT as int);
    }
    assert(((VINTAGE_A as int) * (UNIT as int)) / (UNIT as int) == VINTAGE_A) by {
        vstd::arithmetic::div_mod::lemma_div_by_multiple(VINTAGE_A as int, UNIT as int);
    }
}

/// The vintage saw generator.  It carries no parameters: everything is
/// derived from the phase at each call.
pub struct VintageSaw {
}

impl VintageSaw {
    /// Construct the timbre.
    pub fn new() -> (s: Self)
        ensures
            true,
    {
        VintageSaw {  }
    }

    /// Exact fixed-point vintage-saw sample.  Out-of-range phases are
    /// reduced into the cycle first.
    pub fn generate(&self, phase: u64) -> (r: i64)
        ensures
            r == spec_vintage((phase as int) % (TURN as int)),
            UNIT - VINTAGE_A <= r <= UNIT,
    {
        let p = phase % TURN;
        proof {
            lemma_phi_bounds(p as int);
            lemma_exponent_bounds(p as int);
            lemma_vintage_range(p as int);
        }
        let phi = ((p * TWO_PI_Q15) / TURN) as i64;
        let m = if phi < VINTAGE_EPS {
            VINTAGE_EPS
        } else {
            phi
        };
        let x = (5 * m * phi) / UNIT;
        let e = exp_neg_q15(x);
        (VINTAGE_A * e) / UNIT + (UNIT - VINTAGE_A)
    }
}

} // verus!
