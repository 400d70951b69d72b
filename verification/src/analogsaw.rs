//! "Analog" saw timbre: an asymmetric sawtooth with power-law shaping
//! and a small per-call phase jitter.
//!
//! The normalized phase is split at the asymmetry point into a rising
//! and a falling linear ramp; the ramp value is then shaped by a
//! signed power law whose exponent is counted in halves, so that an
//! exponent like 1.5 is three half-powers computed from a verified
//! integer square root.

use vstd::prelude::*;
use crate::fixed::{TURN, UNIT, PHASE_PER_Q15, div_trunc, div_trunc_i64};
use crate::rng::random_at_most;

verus! {

/// Floor of the square root of `n`, defined by counting up.
pub open spec fn sqrt_floor(n: int) -> int
    decreases n,
{
    if n <= 0 {
        0
    } else {
        let r = sqrt_floor(n - 1);
        if (r + 1) * (r + 1) <= n {
            r + 1
        } else {
            r
        }
    }
}

/// `sqrt_floor` is exactly the integer square root: its square is at
/// most `n` and the next square is beyond `n`.
pub proof fn lemma_sqrt_floor(n: int)
    requires
        n >= 0,
    ensures
        sqrt_floor(n) >= 0,
        sqrt_floor(n) * sqrt_floor(n) <= n,
        n < (sqrt_floor(n) + 1) * (sqrt_floor(n) + 1),
    decreases n,
{
    if n > 0 {
        lemma_sqrt_floor(n - 1);
        let r = sqrt_floor(n - 1);
        if (r + 1) * (r + 1) <= n {
            assert(n - 1 < (r + 1) * (r + 1));
            assert(n == (r + 1) * (r + 1));
            assert((r + 2) * (r + 2) > (r + 1) * (r + 1)) by (nonlinear_arith)
                requires
                    r >= 0,
            ;
        }
    }
}

/// Any nonnegative value bracketed by the same neighbouring squares is
/// the integer square root.
pub proof fn lemma_sqrt_floor_unique(n: int, s: int)
    requires
        n >= 0,
        s >= 0,
        s * s <= n,
        n < (s + 1) * (s + 1),
    ensures
        s == sqrt_floor(n),
{
    lemma_sqrt_floor(n);
    let t = sqrt_floor(n);
    assert(s < t + 1) by (nonlinear_arith)
        requires
            s >= 0,
            t >= 0,
            s * s <= n,
            n < (t + 1) * (t + 1),
    ;
    assert(t < s + 1) by (nonlinear_arith)
        requires
            s >= 0,
            t >= 0,
            t * t <= n,
            n < (s + 1) * (s + 1),
    ;
}

/// Integer square root by bisection over `[0, 2^16]`.
pub fn isqrt(n: u64) -> (r: u64)
    requires
        n < 0x1_0000_0000,
    ensures
        r == sqrt_floor(n as int),
        r <= 0xffff,
{
    let mut lo: u64 = 0;
    let mut hi: u64 = 0x1_0000;
    proof {
        assert((65536int) * (65536int) > n as int);
    }
    while hi - lo > 1
        invariant
            lo < hi,
            hi <= 0x1_0000,
            (lo as int) * (lo as int) <= n,
            (n as int) < (hi as int) * (hi as int),
        decreases hi - lo,
    {
        let mid = lo + (hi - lo) / 2;
        assert(lo < mid < hi);
        proof {
            assert((mid as int) * (mid as int) < 65536 * 65536) by (nonlinear_arith)
                requires
                    mid < 65536,
            ;
        }
        if mid * mid <= n {
            lo = mid;
        } else {
            hi = mid;
        }
    }
    proof {
        assert(hi == lo + 1);
        lemma_sqrt_floor_unique(n as int, lo as int);
    }
    lo
}

/// Q15 square root: the root of a Q15 value, as a Q15 value.
pub open spec fn spec_sqrt_q15(x: int) -> int {
    sqrt_floor(x * (UNIT as int))
}

/// The Q15 square root of a value in `[0, UNIT]` stays in `[0, UNIT]`.
pub proof fn lemma_sqrt_q15_range(x: int)
    requires
        0 <= x <= UNIT,
    ensures
        0 <= spec_sqrt_q15(x) <= UNIT,
{
    let n = x * (UNIT as int);
    assert(0 <= n <= (UNIT as int) * (UNIT as int)) by (nonlinear_arith)
        requires
            0 <= x <= UNIT,
            n == x * (UNIT as int),
    ;
    lemma_sqrt_floor(n);
    let s = sqrt_floor(n);
    assert(s <= UNIT) by (nonlinear_arith)
        requires
            s >= 0,
            s * s <= (UNIT as int) * (UNIT as int),
            UNIT == 32768,
    ;
}

/// `x^(k/2)` for a Q15 value `x ∈ [0, UNIT]`: `k` Q15 multiplications
/// by the Q15 square root of `x`.
pub open spec fn spec_pow_half(x: int, k: int) -> int
    decreases k,
{
    if k <= 0 {
        UNIT as int
    } else {
        (spec_pow_half(x, k - 1) * spec_sqrt_q15(x)) / (UNIT as int)
    }
}

/// Half-powers of a value in `[0, UNIT]` stay in `[0, UNIT]`.
pub proof fn lemma_pow_half_range(x: int, k: int)
    requires
        0 <= x <= UNIT,
    ensures
        0 <= spec_pow_half(x, k) <= UNIT,
    decreases k,
{
    if k > 0 {
        lemma_pow_half_range(x, k - 1);
        lemma_sqrt_q15_range(x);
        let p = spec_pow_half(x, k - 1);
        let s = spec_sqrt_q15(x);
        assert(0 <= p * s <= (UNIT as int) * p) by (nonlinear_arith)
            requires
                0 <= p,
                0 <= s <= UNIT,
        ;
        vstd::arithmetic::div_mod::lemma_div_pos_is_pos(p * s, UNIT as int);
        vstd::arithmetic::div_mod::lemma_multiply_divide_le(p * s, UNIT as int, p);
    }
}

/// Compute `x^(k/2)` in Q15.
fn pow_half(x: i64, k: u8) -> (r: i64)
    requires
        0 <= x <= UNIT,
    ensures
        r == spec_pow_half(x as int, k as int),
        0 <= r <= UNIT,
{
    let s = isqrt((x as u64) * (UNIT as u64)) as i64;
    proof {
        lemma_sqrt_q15_range(x as int);
        assert((x as u64) * (UNIT as u64) == (x as int) * (UNIT as int));
    }
    let mut r: i64 = UNIT;
    let mut i: u8 = 0;
    while i < k
        invariant
            i <= k,
            0 <= x <= UNIT,
            0 <= s <= UNIT,
            s == spec_sqrt_q15(x as int),
            r == spec_pow_half(x as int, i as int),
            0 <= r <= UNIT,
        decreases k - i,
    {
        proof {
            lemma_pow_half_range(x as int, i as int + 1);
            assert(0 <= r * s <= (UNIT as int) * (UNIT as int)) by (nonlinear_arith)
                requires
                    0 <= r <= UNIT,
                    0 <= s <= UNIT,
            ;
        }
        r = (r * s) / UNIT;
        i = i + 1;
    }
    r
}

/// The asymmetric two-ramp sawtooth before shaping: a rising ramp from
/// 0 to just below +1 on `[0, a)`, then a ramp from −1 back toward 0
/// on `[a, 1)`, evaluated with truncating division so that a slightly
/// jittered phase below zero stays on the rising ramp's extension.
pub open spec fn spec_asym_ramp(a: int, jp: int) -> int {
    if jp < a {
        div_trunc(jp * (UNIT as int), a)
    } else {
        div_trunc((jp - a) * (UNIT as int), (UNIT as int) - a) - UNIT
    }
}

/// The shaped sample at a (possibly jittered) normalized phase:
/// the ramp value pushed through the signed power law.
pub open spec fn spec_analog_saw_shape(k: int, a: int, jp: int) -> int {
    let x = spec_asym_ramp(a, jp);
    if x >= 0 {
        spec_pow_half(x, k)
    } else {
        -spec_pow_half(-x, k)
    }
}

/// For phases within one asymmetry span of the cycle, the ramp stays
/// inside `[-UNIT, UNIT]`.
pub proof fn lemma_asym_ramp_range(a: int, jp: int)
    requires
        0 < a < UNIT,
        -a <= jp,
        jp - a < 2 * ((UNIT as int) - a),
    ensures
        -UNIT <= spec_asym_ramp(a, jp) <= UNIT,
{
    if jp < a {
        if jp >= 0 {
            assert(jp * (UNIT as int) < a * (UNIT as int)) by (nonlinear_arith)
                requires
                    0 <= jp < a,
            ;
            vstd::arithmetic::div_mod::lemma_div_pos_is_pos(jp * (UNIT as int), a);
            vstd::arithmetic::div_mod::lemma_multiply_divide_lt(jp * (UNIT as int), a, UNIT as int);
        } else {
            let m = -jp;
            assert(m * (UNIT as int) <= a * (UNIT as int)) by (nonlinear_arith)
                requires
                    0 < m <= a,
            ;
            vstd::arithmetic::div_mod::lemma_div_pos_is_pos(m * (UNIT as int), a);
            vstd::arithmetic::div_mod::lemma_multiply_divide_le(m * (UNIT as int), a, UNIT as int);
        }
    } else {
        let d = jp - a;
        let w = (UNIT as int) - a;
        assert(d * (UNIT as int) < w * (2 * UNIT)) by (nonlinear_arith)
            requires
                0 <= d < 2 * w,
        ;
        vstd::arithmetic::div_mod::lemma_div_pos_is_pos(d * (UNIT as int), w);
        vstd::arithmetic::div_mod::lemma_multiply_divide_lt(d * (UNIT as int), w, 2 * UNIT);
    }
}

/// Some jitter offset within the configured total width `j` explains
/// the sample `r` at normalized phase `np`.
pub open spec fn analog_saw_jittered(k: int, a: int, j: int, np: int, r: int) -> bool {
    exists|off: int|
        #![trigger spec_analog_saw_shape(k, a, np + off)]
        -(j / 2) <= off <= j - j / 2 && r == spec_analog_saw_shape(k, a, np + off)
}

/// The shaped sample stays inside `[-UNIT, UNIT]` wherever the ramp
/// does.
pub proof fn lemma_analog_saw_shape_range(k: int, a: int, jp: int)
    requires
        0 < a < UNIT,
        -a <= jp,
        jp - a < 2 * ((UNIT as int) - a),
    ensures
        -UNIT <= spec_analog_saw_shape(k, a, jp) <= UNIT,
{
    lemma_asym_ramp_range(a, jp);
    let x = spec_asym_ramp(a, jp);
    if x >= 0 {
        lemma_pow_half_range(x, k);
    } else {
        lemma_pow_half_range(-x, k);
    }
}

/// The jittered asymmetric power-law saw.  `sharpness_half` counts the
/// power-law exponent in halves (3 stands for 1.5); `asymmetry` is the
/// Q15 split point, strictly inside the cycle; `jitter` is the total
/// width of the uniform phase perturbation, in Q15 of a cycle.
pub struct AnalogSawWave {
    pub sharpness_half: u8,
    pub asymmetry: i64,
    pub jitter: i64,
}

impl AnalogSawWave {
    /// Construction-time validity: the asymmetry point lies strictly
    /// inside the cycle, and the jitter is small enough that a
    /// perturbed phase never leaves the two ramps' domain.
    pub open spec fn wf(self) -> bool {
        &&& 0 < self.asymmetry < UNIT
        &&& 0 <= self.jitter
        &&& self.jitter / 2 <= self.asymmetry
        &&& self.jitter - self.jitter / 2 <= UNIT - self.asymmetry
        &&& self.sharpness_half >= 1
    }

    /// Construct the timbre; parameters are validated here and are
    /// immutable afterwards.
    pub fn new(sharpness_half: u8, asymmetry: i64, jitter: i64) -> (s: Self)
        requires
            0 < asymmetry < UNIT,
            0 <= jitter,
            jitter / 2 <= asymmetry,
            jitter - jitter / 2 <= UNIT - asymmetry,
            sharpness_half >= 1,
        ensures
            s.wf(),
            s.sharpness_half == sharpness_half,
            s.asymmetry == asymmetry,
            s.jitter == jitter,
    {
        AnalogSawWave { sharpness_half, asymmetry, jitter }
    }

    /// Shaped sample at a wrapped phase, perturbed by a jitter offset
    /// drawn fresh on every call.  Whatever the draw, the result is
    /// the shape evaluated at a phase within half a jitter width of
    /// the true one; with zero jitter it is exactly the shape at the
    /// true phase.
    pub fn generate(&self, phase: u64) -> (r: i64)
        requires
            self.wf(),
            phase < TURN,
        ensures
            analog_saw_jittered(
                self.sharpness_half as int,
                self.asymmetry as int,
                self.jitter as int,
                (phase as int) / (PHASE_PER_Q15 as int),
                r as int,
            ),
            self.jitter == 0 ==> r == spec_analog_saw_shape(
                self.sharpness_half as int,
                self.asymmetry as int,
                (phase as int) / (PHASE_PER_Q15 as int),
            ),
            -UNIT <= r <= UNIT,
    {
        let np = (phase / PHASE_PER_Q15) as i64;
        proof {
            vstd::arithmetic::div_mod::lemma_div_pos_is_pos(phase as int, PHASE_PER_Q15 as int);
            vstd::arithmetic::div_mod::lemma_multiply_divide_lt(
                phase as int,
                PHASE_PER_Q15 as int,
                32768,
            );
        }
        let off: i64 = if self.jitter > 0 {
            (random_at_most(self.jitter as u32) as i64) - self.jitter / 2
        } else {
            0
        };
        let jp = np + off;
        proof {
            lemma_analog_saw_shape_range(
                self.sharpness_half as int,
                self.asymmetry as int,
                jp as int,
            );
        }
        proof {
            lemma_asym_ramp_range(self.asymmetry as int, jp as int);
        }
        let a = self.asymmetry;
        let x = if jp < a {
            div_trunc_i64(jp * UNIT, a)
        } else {
            div_trunc_i64((jp - a) * UNIT, UNIT - a) - UNIT
        };
        let r = if x >= 0 {
            pow_half(x, self.sharpness_half)
        } else {
            -pow_half(-x, self.sharpness_half)
        };
        proof {
            let o = off as int;
            assert(-(self.jitter / 2) <= o <= self.jitter - self.jitter / 2);
            assert(r == spec_analog_saw_shape(
                self.sharpness_half as int,
                self.asymmetry as int,
                (phase as int) / (PHASE_PER_Q15 as int) + o,
            ));
        }
        r
    }
}

} // verus!
