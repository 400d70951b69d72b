//! Band-limited ("virtual analog") square timbre: a finite sum of odd
//! harmonics with per-call phase jitter.

use vstd::prelude::*;
use crate::fixed::{TURN, UNIT, div_trunc, div_trunc_i64, lemma_div_trunc_bounds,
    lemma_div_trunc_shrink, jitter_wrap};
use crate::sine::{spec_sine, SineWave, lemma_sine_range};
use crate::rng::random_at_most;
use crate::vasaw::JITTER_STEP;

verus! {

/// `4/π` in Q15.
pub const FOUR_OVER_PI_Q15: i64 = 41722;

/// Partial odd-harmonic sum of the square: `Σ sin((2n−1)·p)/(2n−1)`
/// over the first `h` odd harmonics, in Q15.
pub open spec fn spec_bl_square_sum(h: int, p: int) -> int
    decreases h,
{
    if h <= 0 {
        0
    } else {
        spec_bl_square_sum(h - 1, p) + div_trunc(
            spec_sine(((2 * h - 1) * p) % (TURN as int)),
            2 * h - 1,
        )
    }
}

/// The partial sum over `h` odd harmonics is at most `h` units.
pub proof fn lemma_bl_square_sum_bound(h: int, p: int)
    requires
        h >= 0,
    ensures
        -(h * UNIT) <= spec_bl_square_sum(h, p) <= h * UNIT,
    decreases h,
{
    if h > 0 {
        lemma_bl_square_sum_bound(h - 1, p);
        vstd::arithmetic::div_mod::lemma_mod_bound((2 * h - 1) * p, TURN as int);
        lemma_sine_range(((2 * h - 1) * p) % (TURN as int));
        lemma_div_trunc_bounds(
            spec_sine(((2 * h - 1) * p) % (TURN as int)),
            2 * h - 1,
            UNIT as int,
        );
    }
}

/// The complete band-limited square sample at phase `p`: the partial
/// sum scaled by `4/π`.
pub open spec fn spec_bl_square_out(h: int, p: int) -> int {
    div_trunc(spec_bl_square_sum(h, p) * FOUR_OVER_PI_Q15, UNIT as int)
}

/// The output is bounded by `h·(4/π)` units.
pub proof fn lemma_bl_square_out_bound(h: int, p: int)
    requires
        h >= 0,
    ensures
        -(h * FOUR_OVER_PI_Q15) <= spec_bl_square_out(h, p) <= h * FOUR_OVER_PI_Q15,
{
    lemma_bl_square_sum_bound(h, p);
    let s = spec_bl_square_sum(h, p);
    let m = h * FOUR_OVER_PI_Q15;
    assert(m >= 0 && -(m * (UNIT as int)) <= s * FOUR_OVER_PI_Q15 <= m * (UNIT as int))
        by (nonlinear_arith)
        requires
            h >= 0,
            -(h * UNIT) <= s <= h * UNIT,
            m == h * FOUR_OVER_PI_Q15,
            UNIT == 32768,
    ;
    lemma_div_trunc_shrink(s * FOUR_OVER_PI_Q15, UNIT as int, m);
}

/// Some jitter offset within the configured width `j` (Q15 of a
/// cycle) explains the sample `r` at phase `p`.
pub open spec fn bl_square_jittered(h: int, j: int, p: int, r: int) -> bool {
    exists|off: int|
        #![trigger spec_bl_square_out(h, (p + off) % (TURN as int))]
        -(j / 2) * JITTER_STEP <= off <= (j - j / 2) * JITTER_STEP && r == spec_bl_square_out(
            h,
            (p + off) % (TURN as int),
        )
}

/// Band-limited square: `num_harmonics` odd-harmonic terms and a
/// jitter width in Q15 of a cycle.
pub struct VASquareWave {
    pub num_harmonics: usize,
    pub jitter: i64,
}

impl VASquareWave {
    /// Construction-time validity: at least one harmonic and a jitter
    /// width within one cycle.
    pub open spec fn wf(self) -> bool {
        &&& 1 <= self.num_harmonics <= 1024
        &&& 0 <= self.jitter <= UNIT
    }

    /// Construct the timbre; parameters are validated here and are
    /// immutable afterwards.
    pub fn new(num_harmonics: usize, jitter: i64) -> (s: Self)
        requires
            1 <= num_harmonics <= 1024,
            0 <= jitter <= UNIT,
        ensures
            s.wf(),
            s.num_harmonics == num_harmonics,
            s.jitter == jitter,
    {
        VASquareWave { num_harmonics, jitter }
    }

    /// The partial odd-harmonic sum at a wrapped phase.
    fn calculate_bandlimited_square(&self, phase: u64) -> (sum: i64)
        requires
            self.wf(),
            phase < TURN,
        ensures
            sum == spec_bl_square_sum(self.num_harmonics as int, phase as int),
            -((self.num_harmonics as i64) * UNIT) <= sum <= (self.num_harmonics as i64) * UNIT,
    {
        let sine = SineWave {  };
        let mut sum: i64 = 0;
        let mut n: usize = 1;
        while n <= self.num_harmonics
            invariant
                1 <= n <= self.num_harmonics + 1,
                self.num_harmonics <= 1024,
                phase < TURN,
                sum == spec_bl_square_sum(n as int - 1, phase as int),
                -((n as i64 - 1) * UNIT) <= sum <= (n as i64 - 1) * UNIT,
            decreases self.num_harmonics + 1 - n,
        {
            let harmonic: u64 = 2 * (n as u64) - 1;
            proof {
                assert((harmonic as int) * (phase as int) < 2048 * 0x1_0000_0000)
                    by (nonlinear_arith)
                    requires
                        0 < harmonic <= 2047,
                        phase < 0x1_0000_0000,
                ;
            }
            let angle = (harmonic * phase) % TURN;
            proof {
                vstd::arithmetic::div_mod::lemma_mod_bound(
                    (harmonic * phase) as int,
                    TURN as int,
                );
            }
            let s = sine.generate(angle);
            let term = div_trunc_i64(s, harmonic as i64);
            proof {
                lemma_div_trunc_bounds(s as int, harmonic as int, UNIT as int);
            }
            sum = sum + term;
            n = n + 1;
        }
        sum
    }

    /// A band-limited square sample, perturbed by a jitter offset
    /// drawn fresh on every call.  Whatever the draw, the result is
    /// the series evaluated at a phase within half a jitter width of
    /// the true one; with zero jitter it is exactly the series at the
    /// true phase.  Out-of-range phases are reduced into the cycle
    /// first.
    pub fn generate(&self, phase: u64) -> (r: i64)
        requires
            self.wf(),
        ensures
            bl_square_jittered(
                self.num_harmonics as int,
                self.jitter as int,
                (phase as int) % (TURN as int),
                r as int,
            ),
            self.jitter == 0 ==> r == spec_bl_square_out(
                self.num_harmonics as int,
                (phase as int) % (TURN as int),
            ),
            -((self.num_harmonics as i64) * FOUR_OVER_PI_Q15) <= r
                <= (self.num_harmonics as i64) * FOUR_OVER_PI_Q15,
    {
        let p = phase % TURN;
        proof {
            vstd::arithmetic::div_mod::lemma_mod_bound(phase as int, TURN as int);
        }
        let off: i64 = if self.jitter > 0 {
            ((random_at_most(self.jitter as u32) as i64) - self.jitter / 2) * JITTER_STEP
        } else {
            0
        };
        let jp = jitter_wrap(p, off);
        let sum = self.calculate_bandlimited_square(jp);
        proof {
            lemma_bl_square_out_bound(self.num_harmonics as int, jp as int);
        }
        let r = div_trunc_i64(sum * FOUR_OVER_PI_Q15, UNIT);
        proof {
            let hi = self.num_harmonics as int;
            let pi0 = (phase as int) % (TURN as int);
            assert(r == spec_bl_square_out(hi, (pi0 + off) % (TURN as int)));
        }
        r
    }
}

} // verus!
