//! Frequency utilities: MIDI note numbers to frequencies, and
//! frequencies to per-sample phase increments.
//!
//! Frequencies are integers in millihertz, so that the reference pitch
//! (MIDI note 69 at 440 Hz) and every octave relation are exact.

use vstd::prelude::*;
use crate::fixed::TURN;

verus! {

/// Frequency of the lowest octave's semitone `s` (MIDI notes 0..12) in
/// millihertz, rounded to the nearest integer: `440000 / 2^5 · 2^((s - 9)/12)`.
/// The entry for semitone 9 (the A) is exact: `13750 == 440000 / 32`.
pub open spec fn semitone_base_millihz(s: int) -> int {
    if s == 0 {
        8176
    } else if s == 1 {
        8662
    } else if s == 2 {
        9177
    } else if s == 3 {
        9723
    } else if s == 4 {
        10301
    } else if s == 5 {
        10913
    } else if s == 6 {
        11562
    } else if s == 7 {
        12250
    } else if s == 8 {
        12978
    } else if s == 9 {
        13750
    } else if s == 10 {
        14568
    } else {
        15434
    }
}

/// 2^k, for the octave shifts that MIDI notes can produce.
pub open spec fn pow2(k: int) -> int
    decreases k,
{
    if k <= 0 {
        1
    } else {
        2 * pow2(k - 1)
    }
}

/// The powers of two up to 2^10, spelled out so that concrete octave
/// shifts can be evaluated.
pub proof fn lemma_pow2_values()
    ensures
        pow2(0) == 1,
        pow2(1) == 2,
        pow2(2) == 4,
        pow2(3) == 8,
        pow2(4) == 16,
        pow2(5) == 32,
        pow2(6) == 64,
        pow2(7) == 128,
        pow2(8) == 256,
        pow2(9) == 512,
        pow2(10) == 1024,
{
    assert(pow2(0) == 1);
    assert(pow2(1) == 2);
    assert(pow2(2) == 4);
    assert(pow2(3) == 8);
    assert(pow2(4) == 16);
    assert(pow2(5) == 32);
    assert(pow2(6) == 64);
    assert(pow2(7) == 128);
    assert(pow2(8) == 256);
    assert(pow2(9) == 512);
    assert(pow2(10) == 1024);
}

/// Powers of two grow monotonically.
pub proof fn lemma_pow2_monotone(a: int, b: int)
    requires
        0 <= a <= b,
    ensures
        pow2(a) <= pow2(b),
    decreases b - a,
{
    if a < b {
        lemma_pow2_monotone(a, b - 1);
        assert(pow2(b) == 2 * pow2(b - 1));
        assert(pow2(b - 1) >= 1) by {
            lemma_pow2_positive(b - 1);
        }
    }
}

/// Powers of two are positive.
pub proof fn lemma_pow2_positive(k: int)
    ensures
        pow2(k) >= 1,
    decreases k,
{
    if k > 0 {
        lemma_pow2_positive(k - 1);
    }
}

/// The frequency of MIDI note `n` in millihertz: the base-octave entry
/// for its pitch class, doubled once per octave above the lowest.
pub open spec fn spec_midi_freq(n: int) -> int {
    semitone_base_millihz(n % 12) * pow2(n / 12)
}

/// No MIDI note reaches 12.6 kHz, and none falls below 8.176 Hz.
pub proof fn lemma_midi_freq_bounds(n: int)
    requires
        0 <= n < 128,
    ensures
        8176 <= spec_midi_freq(n) < 12600000,
{
    let s = n % 12;
    let k = n / 12;
    lemma_pow2_values();
    assert(0 <= s < 12);
    assert(0 <= k <= 10);
    if k == 10 {
        assert(n >= 120);
        assert(s <= 7);
        assert(semitone_base_millihz(s) * 1024 < 12600000);
    } else {
        assert(semitone_base_millihz(s) * pow2(k) <= 15434 * 512) by (nonlinear_arith)
            requires
                semitone_base_millihz(s) <= 15434,
                0 < pow2(k) <= 512,
        ;
    }
    assert(semitone_base_millihz(s) * pow2(k) >= 8176) by (nonlinear_arith)
        requires
            semitone_base_millihz(s) >= 8176,
            pow2(k) >= 1,
    ;
}

/// Mapping from MIDI note number to frequency in millihertz:
/// `440000 · 2^((n − 69) / 12)`, built from an exact table for the
/// lowest octave and an exact doubling per octave.  Note 69 gives
/// exactly 440000 (440 Hz).
pub fn midi_note_to_freq(note: u8) -> (f: u64)
    requires
        note < 128,
    ensures
        f == spec_midi_freq(note as int),
        8176 <= f < 12600000,
{
    let s: u8 = note % 12;
    let k: u8 = note / 12;
    let base: u64 = if s == 0 {
        8176
    } else if s == 1 {
        8662
    } else if s == 2 {
        9177
    } else if s == 3 {
        9723
    } else if s == 4 {
        10301
    } else if s == 5 {
        10913
    } else if s == 6 {
        11562
    } else if s == 7 {
        12250
    } else if s == 8 {
        12978
    } else if s == 9 {
        13750
    } else if s == 10 {
        14568
    } else {
        15434
    };
    proof {
        lemma_pow2_values();
    }
    let mut mult: u64 = 1;
    let mut i: u8 = 0;
    while i < k
        invariant
            i <= k,
            k <= 10,
            mult == pow2(i as int),
            mult <= 1024,
        decreases k - i,
    {
        proof {
            lemma_pow2_values();
            lemma_pow2_monotone(i as int, 9);
            assert(pow2(i as int + 1) == 2 * pow2(i as int));
        }
        mult = mult * 2;
        i = i + 1;
    }
    proof {
        lemma_midi_freq_bounds(note as int);
        assert(base * mult <= 15434 * 1024) by (nonlinear_arith)
            requires
                base <= 15434,
                mult <= 1024,
        ;
    }
    base * mult
}

/// One octave up doubles the frequency, exactly, for every pair of
/// notes twelve semitones apart.
pub proof fn lemma_octave_doubles(n: int)
    requires
        0 <= n,
        n + 12 < 128,
    ensures
        spec_midi_freq(n + 12) == 2 * spec_midi_freq(n),
{
    assert((n + 12) % 12 == n % 12) by {
        vstd::arithmetic::div_mod::lemma_mod_add_multiples_vanish(n, 12);
    }
    assert((n + 12) / 12 == n / 12 + 1) by {
        vstd::arithmetic::div_mod::lemma_hoist_over_denominator(n, 1, 12);
    }
    assert(pow2(n / 12 + 1) == 2 * pow2(n / 12));
}

/// The per-sample phase increment of a tone: the fixed-point form of
/// `2π · f / rate`.
pub open spec fn spec_phase_inc(freq_millihz: int, sample_rate: int) -> int {
    ((TURN as int) * freq_millihz) / (1000 * sample_rate)
}

/// The increment stays below one full turn whenever the frequency in
/// hertz stays below the sample rate.
pub proof fn lemma_phase_inc_bounds(freq_millihz: int, sample_rate: int)
    requires
        sample_rate >= 1,
        0 <= freq_millihz < 1000 * sample_rate,
    ensures
        0 <= spec_phase_inc(freq_millihz, sample_rate) < TURN,
{
    let divisor = 1000 * sample_rate;
    vstd::arithmetic::div_mod::lemma_div_pos_is_pos((TURN as int) * freq_millihz, divisor);
    assert((TURN as int) * freq_millihz >= 0) by (nonlinear_arith)
        requires
            freq_millihz >= 0,
    ;
    assert((TURN as int) * freq_millihz < divisor * (TURN as int)) by (nonlinear_arith)
        requires
            0 <= freq_millihz < divisor,
    ;
    vstd::arithmetic::div_mod::lemma_multiply_divide_lt(
        (TURN as int) * freq_millihz,
        divisor,
        TURN as int,
    );
}

/// Per-sample phase increment for a tone of `freq_millihz` at
/// `sample_rate` Hz.
pub fn hz_to_phase_inc(freq_millihz: u64, sample_rate: u32) -> (inc: u64)
    requires
        sample_rate >= 1,
        freq_millihz < 0x4000_0000,
    ensures
        inc == spec_phase_inc(freq_millihz as int, sample_rate as int),
        freq_millihz < 1000 * (sample_rate as u64) ==> inc < TURN,
{
    let divisor: u64 = 1000 * (sample_rate as u64);
    let inc = (TURN * freq_millihz) / divisor;
    proof {
        if freq_millihz < 1000 * (sample_rate as u64) {
            assert(((TURN * freq_millihz) as int) < (divisor as int) * (TURN as int)) by (nonlinear_arith)
                requires
                    (freq_millihz as int) < (divisor as int),
                    (TURN as int) * (freq_millihz as int) == (TURN * freq_millihz) as int,
            ;
            vstd::arithmetic::div_mod::lemma_multiply_divide_lt(
                (TURN * freq_millihz) as int,
                divisor as int,
                TURN as int,
            );
        }
    }
    inc
}

} // verus!
