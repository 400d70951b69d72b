//! MIDI-note frequencies and phase increments.

use variable_synth::fixed::{TURN, HALF_TURN};
use variable_synth::utils::{midi_note_to_freq, hz_to_phase_inc};

#[test]
fn concert_pitch_is_exact() {
    assert_eq!(midi_note_to_freq(69), 440000);
}

#[test]
fn octave_above_concert_pitch_is_exactly_double() {
    assert_eq!(midi_note_to_freq(81), 880000);
    assert_eq!(midi_note_to_freq(57), 220000);
}

#[test]
fn middle_c_frequency() {
    // 440000 / 2^(9/12) rounded through the base table: 8176 << 5.
    assert_eq!(midi_note_to_freq(60), 261632);
}

#[test]
fn every_octave_doubles() {
    for n in 0..116u8 {
        assert_eq!(midi_note_to_freq(n + 12), 2 * midi_note_to_freq(n));
    }
}

#[test]
fn frequencies_rise_with_the_note_number() {
    for n in 0..127u8 {
        assert!(midi_note_to_freq(n) < midi_note_to_freq(n + 1));
    }
}

#[test]
fn half_rate_tone_advances_half_a_turn_per_sample() {
    // 500 Hz at a 1 kHz sample rate moves the accumulator exactly
    // half a cycle each sample.
    assert_eq!(hz_to_phase_inc(500000, 1000), HALF_TURN);
}

#[test]
fn increment_stays_below_one_turn() {
    let inc = hz_to_phase_inc(midi_note_to_freq(127), 26000);
    assert!(inc < TURN);
    assert!(inc > 0);
}
