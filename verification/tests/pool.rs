//! Allocation, release, mixing and retuning of the voice pool.

use variable_synth::fixed::{TURN, UNIT};
use variable_synth::params::Waveform;
use variable_synth::synth::create_waveform;
use variable_synth::voice::Voice;
use variable_synth::voice_manager::VoiceManager;

const SR: u32 = 44100;

fn pool() -> VoiceManager {
    VoiceManager::new(create_waveform(Waveform::Sine))
}

fn active_count(m: &VoiceManager) -> usize {
    m.voices.iter().filter(|v| v.is_active).count()
}

#[test]
fn allocate_takes_first_idle_slot() {
    let mut m = pool();
    m.note_on(60, 100);
    assert!(m.voices[0].is_active);
    assert_eq!(m.voices[0].note, 60);
    m.note_on(64, 100);
    assert!(m.voices[1].is_active);
    assert_eq!(active_count(&m), 2);
}

#[test]
fn release_frees_exactly_the_allocated_voice() {
    let mut m = pool();
    m.note_on(60, 100);
    m.note_on(64, 100);
    m.note_off(60);
    assert!(!m.voices[0].is_active);
    assert!(m.voices[1].is_active);
    assert_eq!(active_count(&m), 1);
}

#[test]
fn release_of_never_allocated_note_is_a_no_op() {
    let mut m = pool();
    m.note_on(60, 100);
    let before: Vec<Voice> = m.voices.clone();
    let table_before: Vec<Option<usize>> = m.note_table.clone();
    m.note_off(72);
    for i in 0..before.len() {
        assert_eq!(m.voices[i].phase, before[i].phase);
        assert_eq!(m.voices[i].frequency, before[i].frequency);
        assert_eq!(m.voices[i].is_active, before[i].is_active);
        assert_eq!(m.voices[i].note, before[i].note);
    }
    for k in 0..table_before.len() {
        assert_eq!(m.note_table[k], table_before[k]);
    }
}

#[test]
fn release_on_empty_pool_is_a_no_op() {
    let mut m = pool();
    m.note_off(60);
    assert_eq!(active_count(&m), 0);
}

#[test]
fn full_pool_drops_the_seventeenth_note() {
    let mut m = pool();
    for n in 0..16u8 {
        m.note_on(40 + n, 100);
    }
    assert_eq!(active_count(&m), 16);
    m.note_on(80, 100);
    assert_eq!(active_count(&m), 16);
    assert!(m.note_table[80].is_none());
}

#[test]
fn dropped_note_adds_no_energy_to_the_mix() {
    let mut baseline = pool();
    let mut with_extra = pool();
    for n in 0..16u8 {
        baseline.note_on(40 + n, 100);
        with_extra.note_on(40 + n, 100);
    }
    with_extra.note_on(80, 100);
    let a = baseline.generate_samples(256, SR);
    let b = with_extra.generate_samples(256, SR);
    assert_eq!(a, b);
}

#[test]
fn retune_silences_and_zeroes_every_voice() {
    let mut m = pool();
    m.note_on(60, 100);
    m.note_on(64, 100);
    m.note_on(67, 100);
    let _ = m.generate_samples(64, SR);
    m.retune(create_waveform(Waveform::Saw));
    for v in m.voices.iter() {
        assert!(!v.is_active);
        assert_eq!(v.phase, 0);
    }
    for k in 0..128usize {
        assert!(m.note_table[k].is_none());
    }
}

#[test]
fn reset_silences_without_shrinking_the_pool() {
    let mut m = pool();
    m.note_on(60, 100);
    let _ = m.generate_samples(64, SR);
    m.reset();
    assert_eq!(m.voices.len(), 16);
    for v in m.voices.iter() {
        assert!(!v.is_active);
        assert_eq!(v.phase, 0);
    }
}

#[test]
fn silent_pool_mixes_to_silence() {
    let mut m = pool();
    let out = m.generate_samples(128, SR);
    assert_eq!(out.len(), 128);
    for s in out.iter() {
        assert_eq!(*s, 0);
    }
}

#[test]
fn mix_output_stays_within_unit_range_for_sine() {
    let mut m = pool();
    m.note_on(60, 100);
    m.note_on(64, 100);
    m.note_on(67, 100);
    let out = m.generate_samples(2048, SR);
    for s in out.iter() {
        assert!(-UNIT <= *s && *s <= UNIT);
    }
}

#[test]
fn deterministic_timbres_render_identically() {
    for wf in [Waveform::Sine, Waveform::Saw, Waveform::Square] {
        let mut a = VoiceManager::new(create_waveform(wf));
        let mut b = VoiceManager::new(create_waveform(wf));
        a.note_on(60, 100);
        b.note_on(60, 100);
        a.note_on(67, 100);
        b.note_on(67, 100);
        let out_a = a.generate_samples(1024, SR);
        let out_b = b.generate_samples(1024, SR);
        assert_eq!(out_a, out_b);
    }
}

#[test]
fn allocation_preserves_the_frozen_phase() {
    let mut m = pool();
    m.note_on(60, 100);
    let _ = m.generate_samples(100, SR);
    let mid_phase = m.voices[0].phase;
    assert!(mid_phase != 0);
    m.note_off(60);
    let _ = m.generate_samples(100, SR);
    // The idle voice did not advance.
    assert_eq!(m.voices[0].phase, mid_phase);
    m.note_on(72, 100);
    // Reallocation starts from the frozen phase, not from zero.
    assert_eq!(m.voices[0].phase, mid_phase);
}

#[test]
fn duplicate_note_on_keeps_a_single_voice() {
    let mut m = pool();
    m.note_on(60, 100);
    m.note_on(60, 100);
    assert_eq!(active_count(&m), 1);
    m.note_off(60);
    assert_eq!(active_count(&m), 0);
}

#[test]
fn single_voice_pool_holds_one_note() {
    let mut m = VoiceManager::with_capacity(create_waveform(Waveform::Sine), 1);
    m.note_on(60, 100);
    m.note_on(64, 100);
    assert_eq!(active_count(&m), 1);
    assert_eq!(m.voices[0].note, 60);
}

#[test]
fn largest_pool_fills_and_then_drops() {
    let mut m = VoiceManager::with_capacity(create_waveform(Waveform::Sine), 32);
    for n in 0..32u8 {
        m.note_on(30 + n, 100);
    }
    assert_eq!(active_count(&m), 32);
    m.note_on(100, 100);
    assert_eq!(active_count(&m), 32);
    assert!(m.note_table[100].is_none());
}

#[test]
fn sounding_phase_stays_wrapped_for_a_million_samples() {
    let gen = create_waveform(Waveform::Sine);
    let mut v = Voice::new();
    v.set_frequency(12538880);
    v.set_active(true);
    for _ in 0..1000000u32 {
        let s = v.generate_sample(&gen, SR);
        assert!(v.phase < TURN);
        assert!(-UNIT <= s && s <= UNIT);
    }
}
