//! The host-facing render path and the second oscillator.

use variable_synth::fixed::UNIT;
use variable_synth::engine::{VariableSynth, NoteEvent, NoteKind};
use variable_synth::params::Waveform;
use variable_synth::amsynth_oscillator::{AmsynthOscillator, Waveform as OscWaveform};

const SR: u32 = 44100;

fn on(note: u8, timing: u32) -> NoteEvent {
    NoteEvent { kind: NoteKind::On, note, velocity: 32768, timing }
}

fn off(note: u8, timing: u32) -> NoteEvent {
    NoteEvent { kind: NoteKind::Off, note, velocity: 0, timing }
}

#[test]
fn silence_before_any_note() {
    let mut s = VariableSynth::new();
    let out = s.process(&Vec::new(), 64, SR);
    assert_eq!(out.len(), 64);
    for x in out.iter() {
        assert_eq!(*x, 0);
    }
}

#[test]
fn note_off_ends_the_tone() {
    let mut s = VariableSynth::new();
    let events = vec![on(69, 0), off(69, 32)];
    let out = s.process(&events, 64, SR);
    let tail_all_zero = out[33..].iter().all(|x| *x == 0);
    assert!(tail_all_zero);
    let head_has_signal = out[..32].iter().any(|x| *x != 0);
    assert!(head_has_signal);
}

#[test]
fn note_off_for_another_note_is_ignored() {
    let mut s = VariableSynth::new();
    let events = vec![on(69, 0), off(64, 16)];
    let out = s.process(&events, 64, SR);
    let tail_has_signal = out[17..].iter().any(|x| *x != 0);
    assert!(tail_has_signal);
}

#[test]
fn renders_of_the_same_events_coincide() {
    for wf in [Waveform::Sine, Waveform::Saw, Waveform::Square] {
        let mut a = VariableSynth::new();
        let mut b = VariableSynth::new();
        a.params.waveform = wf;
        b.params.waveform = wf;
        let events = vec![on(60, 0), off(60, 100), on(64, 200)];
        let out_a = a.process(&events, 512, SR);
        let out_b = b.process(&events, 512, SR);
        assert_eq!(out_a, out_b);
    }
}

#[test]
fn gain_at_zero_mutes_the_output() {
    let mut s = VariableSynth::new();
    s.params.gain = 0;
    let out = s.process(&vec![on(69, 0)], 128, SR);
    for x in out.iter() {
        assert_eq!(*x, 0);
    }
}

#[test]
fn timbre_change_is_detected_on_the_edge() {
    let mut s = VariableSynth::new();
    let _ = s.process(&Vec::new(), 8, SR);
    s.params.waveform = Waveform::Saw;
    let _ = s.process(&Vec::new(), 8, SR);
    assert_eq!(s.last_waveform, Waveform::Saw);
    // Changing back to the default selection is a change like any
    // other and is observed too.
    s.params.waveform = Waveform::Sine;
    let _ = s.process(&Vec::new(), 8, SR);
    assert_eq!(s.last_waveform, Waveform::Sine);
}

#[test]
fn oscillator_saw_starts_at_negative_one() {
    let mut o = AmsynthOscillator::new(SR);
    o.set_waveform(OscWaveform::Saw);
    assert_eq!(o.generate(), -UNIT);
}

#[test]
fn oscillator_polarity_flips_the_sign() {
    let mut o = AmsynthOscillator::new(SR);
    o.set_waveform(OscWaveform::Saw);
    o.set_polarity(-UNIT);
    assert_eq!(o.generate(), UNIT);
}

#[test]
fn oscillator_pulse_width_zero_is_constant_low() {
    let mut o = AmsynthOscillator::new(SR);
    o.set_waveform(OscWaveform::Pulse);
    o.set_pulse_width(0);
    for _ in 0..100 {
        assert_eq!(o.generate(), -UNIT);
    }
}

#[test]
fn oscillator_random_holds_its_sample_between_refreshes() {
    let mut o = AmsynthOscillator::new(SR);
    o.set_waveform(OscWaveform::Random);
    let first = o.generate();
    // The refresh period is rate/30 samples; until the countdown
    // wraps, the held sample is returned unchanged.
    for _ in 0..(SR / 30 - 1) {
        assert_eq!(o.generate(), first);
    }
}

#[test]
fn oscillator_noise_stays_in_unit_range() {
    let mut o = AmsynthOscillator::new(SR);
    o.set_waveform(OscWaveform::Noise);
    for _ in 0..1000 {
        let s = o.generate();
        assert!(-UNIT <= s && s <= UNIT);
    }
}

#[test]
fn oscillator_reset_zeroes_the_state() {
    let mut o = AmsynthOscillator::new(SR);
    o.set_waveform(OscWaveform::Saw);
    let _ = o.generate();
    let _ = o.generate();
    o.reset();
    assert_eq!(o.rads, 0);
    assert_eq!(o.random, 0);
    assert_eq!(o.random_count, 0);
}
