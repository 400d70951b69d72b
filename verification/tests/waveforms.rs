//! Sample values and ranges of the individual timbres.

use variable_synth::fixed::{TURN, HALF_TURN, QUARTER_TURN, UNIT};
use variable_synth::sine::SineWave;
use variable_synth::saw::SawWave;
use variable_synth::square::SquareWave;
use variable_synth::analogsaw::AnalogSawWave;
use variable_synth::analogsquare::AnalogSquareWave;
use variable_synth::vasaw::VASawWave;
use variable_synth::vasquare::VASquareWave;
use variable_synth::vintagesaw::VintageSaw;

#[test]
fn sine_anchor_values() {
    let w = SineWave {};
    assert_eq!(w.generate(0), 0);
    assert_eq!(w.generate(QUARTER_TURN), UNIT);
    assert_eq!(w.generate(HALF_TURN), 0);
    assert_eq!(w.generate(HALF_TURN + QUARTER_TURN), -UNIT);
}

#[test]
fn sine_stays_in_unit_range() {
    let w = SineWave {};
    let mut phase: u64 = 0;
    while phase < TURN {
        let s = w.generate(phase);
        assert!(-UNIT <= s && s <= UNIT);
        phase += TURN / 1024;
    }
}

#[test]
fn sine_odd_symmetry() {
    let w = SineWave {};
    let mut phase: u64 = TURN / 1024;
    while phase < TURN {
        assert_eq!(w.generate(TURN - phase), -w.generate(phase));
        phase += TURN / 1024;
    }
}

#[test]
fn saw_anchor_values() {
    let w = SawWave {};
    assert_eq!(w.generate(0), -UNIT);
    assert_eq!(w.generate(HALF_TURN), 0);
    assert_eq!(w.generate(TURN - 1), UNIT - 1);
}

#[test]
fn saw_rises_monotonically() {
    let w = SawWave {};
    let mut prev = w.generate(0);
    let mut phase: u64 = TURN / 256;
    while phase < TURN {
        let s = w.generate(phase);
        assert!(s >= prev);
        prev = s;
        phase += TURN / 256;
    }
}

#[test]
fn square_half_cycles() {
    let w = SquareWave {};
    assert_eq!(w.generate(0), UNIT);
    assert_eq!(w.generate(HALF_TURN - 1), UNIT);
    assert_eq!(w.generate(HALF_TURN), -UNIT);
    assert_eq!(w.generate(TURN - 1), -UNIT);
}

#[test]
fn analog_square_plateaus_and_range() {
    let w = AnalogSquareWave::new(3277);
    assert_eq!(w.generate(0), UNIT);
    assert_eq!(w.generate(QUARTER_TURN), UNIT);
    assert_eq!(w.generate(HALF_TURN + QUARTER_TURN), -UNIT);
    let mut phase: u64 = 0;
    while phase < TURN {
        let s = w.generate(phase);
        assert!(-UNIT <= s && s <= UNIT);
        phase += TURN / 512;
    }
}

#[test]
fn analog_saw_without_jitter_is_reproducible() {
    let w = AnalogSawWave::new(3, 19661, 0);
    assert_eq!(w.generate(0), 0);
    let mut phase: u64 = 0;
    while phase < TURN {
        let a = w.generate(phase);
        let b = w.generate(phase);
        assert_eq!(a, b);
        assert!(-UNIT <= a && a <= UNIT);
        phase += TURN / 64;
    }
}

#[test]
fn analog_saw_with_jitter_stays_in_range() {
    let w = AnalogSawWave::new(3, 19661, 328);
    let mut phase: u64 = 0;
    while phase < TURN {
        let s = w.generate(phase);
        assert!(-UNIT <= s && s <= UNIT);
        phase += TURN / 64;
    }
}

#[test]
fn bandlimited_saw_without_jitter_is_reproducible() {
    let w = VASawWave::new(44100, 10, 1638, 0);
    let mut phase: u64 = 0;
    while phase < TURN {
        assert_eq!(w.generate(phase), w.generate(phase));
        phase += TURN / 64;
    }
}

#[test]
fn bandlimited_square_single_harmonic_peak() {
    // With one harmonic the series is a pure sine scaled by 4/pi, so
    // its peak is the Q15 value of 4/pi itself.
    let w = VASquareWave::new(1, 0);
    assert_eq!(w.generate(QUARTER_TURN), 41722);
    assert_eq!(w.generate(0), 0);
}

#[test]
fn bandlimited_square_respects_bound() {
    let w = VASquareWave::new(3, 33);
    let bound = 3 * 41722;
    let mut phase: u64 = 0;
    while phase < TURN {
        let s = w.generate(phase);
        assert!(-bound <= s && s <= bound);
        phase += TURN / 128;
    }
}

#[test]
fn vintage_saw_endpoints() {
    let w = VintageSaw::new();
    // The curve starts at exactly +1 and has fully decayed to 1 - a
    // by the end of the cycle.
    assert_eq!(w.generate(0), UNIT);
    assert_eq!(w.generate(TURN - 1), UNIT - 65981);
    let mut phase: u64 = 0;
    while phase < TURN {
        let s = w.generate(phase);
        assert!(UNIT - 65981 <= s && s <= UNIT);
        phase += TURN / 256;
    }
}
