//! Fixed-point units shared by the whole synthesizer.
//!
//! A phase angle is measured in units of `TURN / 2^32`: the value `TURN`
//! stands for one full cycle (`2π` radians), so a well-formed phase
//! accumulator always holds a value in `[0, TURN)`.  Audio samples and
//! dimensionless shaping parameters are Q15 values: `UNIT == 32768`
//! stands for `1.0`, and a full-scale sample lies in `[-UNIT, UNIT]`.

use vstd::prelude::*;

verus! {

/// One full cycle (2π radians) in phase units: 2^32.
pub const TURN: u64 = 0x1_0000_0000;

/// Half a cycle (π radians) in phase units.
pub const HALF_TURN: u64 = 0x8000_0000;

/// A quarter cycle (π/2 radians) in phase units.
pub const QUARTER_TURN: u64 = 0x4000_0000;

/// The Q15 unit: this integer sample value stands for 1.0.
pub const UNIT: i64 = 32768;

/// Phase units per Q15 step of normalized phase: `TURN / UNIT`.
pub const PHASE_PER_Q15: u64 = 131072;

/// Truncating signed division (round toward zero), the semantics of
/// Rust's `/` on signed integers, stated over mathematical integers.
pub open spec fn div_trunc(a: int, b: int) -> int {
    if a >= 0 {
        a / b
    } else {
        -((-a) / b)
    }
}

/// Truncating division of a possibly negative numerator by a positive
/// divisor, computed with sign split so that it matches `div_trunc`.
pub fn div_trunc_i64(a: i64, b: i64) -> (r: i64)
    requires
        b > 0,
        a > i64::MIN,
    ensures
        r == div_trunc(a as int, b as int),
{
    if a >= 0 {
        a / b
    } else {
        -((-a) / b)
    }
}

/// Truncating division never grows a value's magnitude.
pub proof fn lemma_div_trunc_bounds(a: int, b: int, m: int)
    requires
        b >= 1,
        0 <= m,
        -m <= a <= m,
    ensures
        -m <= div_trunc(a, b) <= m,
        a >= 0 ==> 0 <= div_trunc(a, b),
        a <= 0 ==> div_trunc(a, b) <= 0,
{
    if a >= 0 {
        vstd::arithmetic::div_mod::lemma_div_pos_is_pos(a, b);
        vstd::arithmetic::div_mod::lemma_div_nonincreasing(a, b);
    } else {
        vstd::arithmetic::div_mod::lemma_div_pos_is_pos(-a, b);
        vstd::arithmetic::div_mod::lemma_div_nonincreasing(-a, b);
    }
}

/// A value of magnitude at most `m·b` has magnitude at most `m` after
/// truncating division by `b`.
pub proof fn lemma_div_trunc_shrink(a: int, b: int, m: int)
    requires
        b >= 1,
        0 <= m,
        -(m * b) <= a <= m * b,
    ensures
        -m <= div_trunc(a, b) <= m,
{
    assert(m * b == b * m) by (nonlinear_arith);
    if a >= 0 {
        vstd::arithmetic::div_mod::lemma_div_pos_is_pos(a, b);
        vstd::arithmetic::div_mod::lemma_multiply_divide_le(a, b, m);
    } else {
        vstd::arithmetic::div_mod::lemma_div_pos_is_pos(-a, b);
        vstd::arithmetic::div_mod::lemma_multiply_divide_le(-a, b, m);
    }
}

/// Add a signed jitter offset to a wrapped phase and wrap the result
/// back into the cycle.
pub fn jitter_wrap(phase: u64, off: i64) -> (r: u64)
    requires
        phase < TURN,
        -(TURN as int) <= off <= TURN as int,
    ensures
        r == (phase + off) % (TURN as int),
        r < TURN,
{
    let shifted: u64 = if off >= 0 {
        phase + (off as u64)
    } else {
        phase + TURN - ((-off) as u64)
    };
    proof {
        assert(shifted == phase + TURN + off || shifted == phase + off);
        vstd::arithmetic::div_mod::lemma_mod_add_multiples_vanish(
            phase as int + off as int,
            TURN as int,
        );
        vstd::arithmetic::div_mod::lemma_mod_bound(shifted as int, TURN as int);
    }
    shifted % TURN
}

/// Advance a phase accumulator by one per-sample increment, wrapping
/// once past a full turn.  The wrap is sound only because the increment
/// itself stays below one turn, the fixed-point form of the rule that a
/// voice's frequency stays below the sample rate.
pub fn wrap_add(phase: u64, inc: u64) -> (r: u64)
    requires
        phase < TURN,
        inc < TURN,
    ensures
        r == (phase + inc) % (TURN as int),
        r < TURN,
{
    let sum = phase + inc;
    if sum >= TURN {
        assert(sum - TURN < TURN);
        assert(((sum - TURN) as int) % (TURN as int) == (sum as int) % (TURN as int)) by {
            vstd::arithmetic::div_mod::lemma_mod_sub_multiples_vanish(sum as int, TURN as int);
        }
        assert(((sum - TURN) as int) % (TURN as int) == sum - TURN) by {
            vstd::arithmetic::div_mod::lemma_small_mod((sum - TURN) as nat, TURN as nat);
        }
        sum - TURN
    } else {
        assert((sum as int) % (TURN as int) == sum as int) by {
            vstd::arithmetic::div_mod::lemma_small_mod(sum as nat, TURN as nat);
        }
        sum
    }
}

} // verus!
