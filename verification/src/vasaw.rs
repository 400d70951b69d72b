//! Band-limited ("virtual analog") saw timbre: a finite Fourier series
//! with an optional DC offset and per-call phase jitter.

use vstd::prelude::*;
use crate::fixed::{TURN, UNIT, div_trunc, div_trunc_i64, lemma_div_trunc_bounds, jitter_wrap};
use crate::sine::{spec_sine, SineWave, lemma_sine_range};
use crate::rng::random_at_most;

verus! {

/// `2/π` in Q15.
pub const TWO_OVER_PI_Q15: i64 = 20861;

/// Phase units per Q15 jitter step: half of `TURN / UNIT`, so that a
/// jitter parameter of `UNIT` spreads offsets over a full cycle.
pub const JITTER_STEP: i64 = 65536;

/// Partial Fourier sum of the sawtooth: `Σ (−1)^(n+1)·sin(n·p)/n` over
/// the first `h` harmonics, in Q15.
pub open spec fn spec_bl_saw_sum(h: int, p: int) -> int
    decreases h,
{
    if h <= 0 {
        0
    } else {
        let term = div_trunc(spec_sine((h * p) % (TURN as int)), h);
        spec_bl_saw_sum(h - 1, p) + if h % 2 == 1 {
            term
        } else {
            -term
        }
    }
}

/// The partial sum over `h` harmonics is at most `h` units.
pub proof fn lemma_bl_saw_sum_bound(h: int, p: int)
    requires
        h >= 0,
    ensures
        -(h * UNIT) <= spec_bl_saw_sum(h, p) <= h * UNIT,
    decreases h,
{
    if h > 0 {
        lemma_bl_saw_sum_bound(h - 1, p);
        vstd::arithmetic::div_mod::lemma_mod_bound(h * p, TURN as int);
        lemma_sine_range((h * p) % (TURN as int));
        lemma_div_trunc_bounds(spec_sine((h * p) % (TURN as int)), h, UNIT as int);
    }
}

/// The complete band-limited saw sample at phase `p`: the scaled
/// partial sum, shifted by the DC offset and renormalized.
pub open spec fn spec_bl_saw_out(h: int, d: int, p: int) -> int {
    let scaled = div_trunc(spec_bl_saw_sum(h, p) * TWO_OVER_PI_Q15, UNIT as int);
    let dabs = if d >= 0 {
        d
    } else {
        -d
    };
    div_trunc((scaled + d) * (UNIT as int), (UNIT as int) + dabs)
}

/// The output is bounded by `h·(2/π) + 1` units, the worst case of the
/// partial sum plus the offset before renormalization.
pub proof fn lemma_bl_saw_out_bound(h: int, d: int, p: int)
    requires
        h >= 0,
        -UNIT < d <= UNIT,
    ensures
        -(h * TWO_OVER_PI_Q15 + UNIT) <= spec_bl_saw_out(h, d, p) <= h * TWO_OVER_PI_Q15 + UNIT,
{
    lemma_bl_saw_sum_bound(h, p);
    let s = spec_bl_saw_sum(h, p);
    assert(-(h * UNIT) * TWO_OVER_PI_Q15 <= s * TWO_OVER_PI_Q15 <= (h * UNIT) * TWO_OVER_PI_Q15)
        by (nonlinear_arith)
        requires
            -(h * UNIT) <= s <= h * UNIT,
    ;
    assert((h * UNIT) * TWO_OVER_PI_Q15 == (h * TWO_OVER_PI_Q15) * (UNIT as int))
        by (nonlinear_arith);
    let m = h * TWO_OVER_PI_Q15;
    assert(m >= 0) by (nonlinear_arith)
        requires
            h >= 0,
            m == h * TWO_OVER_PI_Q15,
    ;
    lemma_div_trunc_bounds(s * TWO_OVER_PI_Q15, UNIT as int, m * (UNIT as int));
    let scaled = div_trunc(s * TWO_OVER_PI_Q15, UNIT as int);
    assert(-m <= scaled <= m) by {
        lemma_div_trunc_scale(s * TWO_OVER_PI_Q15, m);
    }
    let dabs = if d >= 0 {
        d
    } else {
        -d
    };
    assert(-(m + UNIT) * (UNIT as int) <= (scaled + d) * (UNIT as int) <= (m + UNIT) * (UNIT as int))
        by (nonlinear_arith)
        requires
            -(m + UNIT) <= scaled + d <= m + UNIT,
    ;
    lemma_div_trunc_bounds((scaled + d) * (UNIT as int), (UNIT as int) + dabs, (m + UNIT) * (UNIT as int));
    lemma_div_trunc_scale2((scaled + d) * (UNIT as int), (UNIT as int) + dabs, m + UNIT);
}

/// A value of magnitude at most `m·UNIT` shrinks to magnitude `m` when
/// divided by `UNIT`.
proof fn lemma_div_trunc_scale(a: int, m: int)
    requires
        0 <= m,
        -(m * (UNIT as int)) <= a <= m * (UNIT as int),
    ensures
        -m <= div_trunc(a, UNIT as int) <= m,
{
    assert(m * (UNIT as int) == (UNIT as int) * m) by (nonlinear_arith);
    if a >= 0 {
        vstd::arithmetic::div_mod::lemma_div_pos_is_pos(a, UNIT as int);
        vstd::arithmetic::div_mod::lemma_multiply_divide_le(a, UNIT as int, m);
    } else {
        vstd::arithmetic::div_mod::lemma_div_pos_is_pos(-a, UNIT as int);
        vstd::arithmetic::div_mod::lemma_multiply_divide_le(-a, UNIT as int, m);
    }
}

/// A value of magnitude at most `m·b` shrinks to magnitude `m` when
/// divided by any divisor of at least `b`.
proof fn lemma_div_trunc_scale2(a: int, b: int, m: int)
    requires
        b >= UNIT,
        0 <= m,
        -(m * (UNIT as int)) <= a <= m * (UNIT as int),
    ensures
        -m <= div_trunc(a, b) <= m,
{
    assert(m * (UNIT as int) <= m * b) by (nonlinear_arith)
        requires
            0 <= m,
            UNIT <= b,
    ;
    assert(m * b == b * m) by (nonlinear_arith);
    if a >= 0 {
        vstd::arithmetic::div_mod::lemma_div_pos_is_pos(a, b);
        vstd::arithmetic::div_mod::lemma_multiply_divide_le(a, b, m);
    } else {
        vstd::arithmetic::div_mod::lemma_div_pos_is_pos(-a, b);
        vstd::arithmetic::div_mod::lemma_multiply_divide_le(-a, b, m);
    }
}

/// Some jitter offset within the configured width `j` (Q15 of a
/// cycle) explains the sample `r` at phase `p`.
pub open spec fn bl_saw_jittered(h: int, d: int, j: int, p: int, r: int) -> bool {
    exists|off: int|
        #![trigger spec_bl_saw_out(h, d, (p + off) % (TURN as int))]
        -(j / 2) * JITTER_STEP <= off <= (j - j / 2) * JITTER_STEP && r == spec_bl_saw_out(
            h,
            d,
            (p + off) % (TURN as int),
        )
}

/// Band-limited saw: `num_harmonics` Fourier terms, a Q15 DC offset,
/// and a jitter width in Q15 of a cycle.  The sample rate the pool was
/// built for is recorded but does not enter the shape.
pub struct VASawWave {
    pub sample_rate: u32,
    pub num_harmonics: usize,
    pub dc_offset: i64,
    pub jitter: i64,
}

impl VASawWave {
    /// Construction-time validity: at least one harmonic, a DC offset
    /// that keeps the normalizer positive, and a jitter width within
    /// one cycle.
    pub open spec fn wf(self) -> bool {
        &&& 1 <= self.num_harmonics <= 1024
        &&& -UNIT < self.dc_offset <= UNIT
        &&& 0 <= self.jitter <= UNIT
    }

    /// Construct the timbre; parameters are validated here and are
    /// immutable afterwards.
    pub fn new(sample_rate: u32, num_harmonics: usize, dc_offset: i64, jitter: i64) -> (s: Self)
        requires
            1 <= num_harmonics <= 1024,
            -UNIT < dc_offset <= UNIT,
            0 <= jitter <= UNIT,
        ensures
            s.wf(),
            s.sample_rate == sample_rate,
            s.num_harmonics == num_harmonics,
            s.dc_offset == dc_offset,
            s.jitter == jitter,
    {
        VASawWave { sample_rate, num_harmonics, dc_offset, jitter }
    }

    /// The partial Fourier sum at a wrapped phase.
    fn calculate_bandlimited_saw(&self, phase: u64) -> (sum: i64)
        requires
            self.wf(),
            phase < TURN,
        ensures
            sum == spec_bl_saw_sum(self.num_harmonics as int, phase as int),
            -((self.num_harmonics as i64) * UNIT) <= sum <= (self.num_harmonics as i64) * UNIT,
    {
        let sine = SineWave {  };
        let mut sum: i64 = 0;
        let mut n: usize = 1;
        while n <= self.num_harmonics
            invariant
                1 <= n <= self.num_harmonics + 1,
                self.num_harmonics <= 1024,
                phase < TURN,
                sum == spec_bl_saw_sum(n as int - 1, phase as int),
                -((n as i64 - 1) * UNIT) <= sum <= (n as i64 - 1) * UNIT,
            decreases self.num_harmonics + 1 - n,
        {
            proof {
                assert((n as int) * (phase as int) < 1025 * 0x1_0000_0000) by (nonlinear_arith)
                    requires
                        0 < n <= 1024,
                        phase < 0x1_0000_0000,
                ;
            }
            let angle = ((n as u64) * phase) % TURN;
            proof {
                vstd::arithmetic::div_mod::lemma_mod_bound((n as u64 * phase) as int, TURN as int);
            }
            let s = sine.generate(angle);
            let term = div_trunc_i64(s, n as i64);
            proof {
                lemma_div_trunc_bounds(s as int, n as int, UNIT as int);
            }
            if n % 2 == 1 {
                sum = sum + term;
            } else {
                sum = sum - term;
            }
            n = n + 1;
        }
        sum
    }

    /// A band-limited saw sample, perturbed by a jitter offset drawn
    /// fresh on every call.  Whatever the draw, the result is the
    /// series evaluated at a phase within half a jitter width of the
    /// true one; with zero jitter it is exactly the series at the true
    /// phase.  Out-of-range phases are reduced into the cycle first.
    pub fn generate(&self, phase: u64) -> (r: i64)
        requires
            self.wf(),
        ensures
            bl_saw_jittered(
                self.num_harmonics as int,
                self.dc_offset as int,
                self.jitter as int,
                (phase as int) % (TURN as int),
                r as int,
            ),
            self.jitter == 0 ==> r == spec_bl_saw_out(
                self.num_harmonics as int,
                self.dc_offset as int,
                (phase as int) % (TURN as int),
            ),
            -((self.num_harmonics as i64) * TWO_OVER_PI_Q15 + UNIT) <= r
                <= (self.num_harmonics as i64) * TWO_OVER_PI_Q15 + UNIT,
    {
        let p = phase % TURN;
        proof {
            vstd::arithmetic::div_mod::lemma_mod_bound(phase as int, TURN as int);
        }
        let off: i64 = if self.jitter > 0 {
            ((random_at_most(self.jitter as u32) as i64) - self.jitter / 2) * JITTER_STEP
        } else {
            0
        };
        let jp = jitter_wrap(p, off);
        let sum = self.calculate_bandlimited_saw(jp);
        proof {
            lemma_bl_saw_out_bound(self.num_harmonics as int, self.dc_offset as int, jp as int);
        }
        let scaled = div_trunc_i64(sum * TWO_OVER_PI_Q15, UNIT);
        let dabs: i64 = if self.dc_offset >= 0 {
            self.dc_offset
        } else {
            -self.dc_offset
        };
        let r = div_trunc_i64((scaled + self.dc_offset) * UNIT, UNIT + dabs);
        proof {
            let hi = self.num_harmonics as int;
            let di = self.dc_offset as int;
            let pi0 = (phase as int) % (TURN as int);
            assert(r == spec_bl_saw_out(hi, di, (pi0 + off) % (TURN as int)));
        }
        r
    }
}

} // verus!
