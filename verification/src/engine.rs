//! The host-facing render path: sample-accurate note events around a
//! monophonic phase accumulator.
//!
//! Each buffer, the timbre selection is observed once and the
//! generator is rebuilt only on the edge of a change.  Within the
//! buffer, every event stamped for a sample index is applied before
//! that sample is generated.

use vstd::prelude::*;
use crate::fixed::{TURN, UNIT, div_trunc, div_trunc_i64, lemma_div_trunc_shrink};
use crate::params::{Waveform, VariableSynthParams};
use crate::synth::{WaveformGenerator, create_waveform, spec_default_generator};
use crate::utils::{spec_midi_freq, midi_note_to_freq, lemma_midi_freq_bounds, spec_phase_inc,
    lemma_phase_inc_bounds, hz_to_phase_inc};

verus! {

/// Whether a note event starts or ends a note.
#[derive(Clone, Copy, PartialEq, Eq, Structural, Debug)]
pub enum NoteKind {
    On,
    Off,
}

/// One already-decoded note event, stamped with its in-buffer sample
/// offset.  The velocity is carried in Q15 but does not shape the
/// amplitude here.
#[derive(Clone, Copy)]
pub struct NoteEvent {
    pub kind: NoteKind,
    pub note: u8,
    pub velocity: u16,
    pub timing: u32,
}

/// The monophonic synthesizer: current control values, the note being
/// held (if any), one phase accumulator, the active generator, and
/// the previously observed timbre selection for edge-triggered
/// rebuilds.
pub struct VariableSynth {
    pub params: VariableSynthParams,
    pub current_note: Option<u8>,
    pub phase: u64,
    pub waveform_generator: WaveformGenerator,
    pub last_waveform: Waveform,
}

/// The note's frequency scaled by the tuning control: the reference A
/// is moved from 440 Hz to the configured tuning.
pub open spec fn spec_tuned_freq(note: int, tuning: int) -> int {
    (spec_midi_freq(note) * tuning) / 440000
}

/// A tuned frequency stays positive and far below the phase-increment
/// overflow limit.
pub proof fn lemma_tuned_freq_bounds(note: int, tuning: int)
    requires
        0 <= note < 128,
        20000 <= tuning <= 880000,
    ensures
        0 <= spec_tuned_freq(note, tuning) < 25200000,
{
    lemma_midi_freq_bounds(note);
    let f = spec_midi_freq(note);
    assert(0 <= f * tuning <= 12599999 * 880000) by (nonlinear_arith)
        requires
            0 <= f <= 12599999,
            20000 <= tuning <= 880000,
    ;
    vstd::arithmetic::div_mod::lemma_div_pos_is_pos(f * tuning, 440000);
    assert(f * tuning <= 440000 * 25200000) by (nonlinear_arith)
        requires
            0 <= f * tuning <= 12599999 * 880000,
    ;
    vstd::arithmetic::div_mod::lemma_multiply_divide_le(f * tuning, 440000, 25200000);
    assert(spec_tuned_freq(note, tuning) < 25200000) by {
        assert(f * tuning < 440000 * 25200000) by (nonlinear_arith)
            requires
                0 <= f * tuning <= 12599999 * 880000,
        ;
        vstd::arithmetic::div_mod::lemma_multiply_divide_lt(f * tuning, 440000, 25200000);
    }
}

impl VariableSynth {
    /// The engine's invariant: valid control values, a wrapped phase,
    /// a held note inside the MIDI range, and a generator that is
    /// exactly the one built for the previously observed selection.
    pub open spec fn wf(self) -> bool {
        &&& self.params.wf()
        &&& self.phase < TURN
        &&& (self.current_note matches Some(n) ==> n < 128)
        &&& self.waveform_generator == spec_default_generator(self.last_waveform)
    }

    /// The engine after one event: note-on claims the note and resets
    /// the phase; note-off releases the note only if it is the one
    /// being held.
    pub open spec fn spec_apply_event(self, e: NoteEvent) -> VariableSynth {
        match e.kind {
            NoteKind::On => VariableSynth {
                current_note: Some(e.note),
                phase: 0,
                ..self
            },
            NoteKind::Off => if self.current_note == Some(e.note) {
                VariableSynth { current_note: None, ..self }
            } else {
                self
            },
        }
    }

    /// The engine after observing the timbre selection: on the edge of
    /// a change the generator is rebuilt and the observation recorded;
    /// otherwise nothing happens — in particular, changing back to the
    /// default selection is detected like any other change.
    pub open spec fn spec_retimbre(self) -> VariableSynth {
        if self.params.waveform != self.last_waveform {
            VariableSynth {
                waveform_generator: spec_default_generator(self.params.waveform),
                last_waveform: self.params.waveform,
                ..self
            }
        } else {
            self
        }
    }

    /// The engine after one sample: while a note is held the phase
    /// advances by the tuned increment, wrapped; otherwise the phase
    /// is frozen.
    pub open spec fn spec_step_state(self, sample_rate: int) -> VariableSynth {
        match self.current_note {
            Some(n) => VariableSynth {
                phase: (((self.phase + spec_phase_inc(
                    spec_tuned_freq(n as int, self.params.tuning as int),
                    sample_rate,
                )) % (TURN as int)) as u64),
                ..self
            },
            None => self,
        }
    }

    /// The sample of one frame: the generator at the freshly advanced
    /// phase, scaled by the gain; silence while no note is held.
    pub open spec fn spec_step_sample(self, sample_rate: int) -> int {
        match self.current_note {
            Some(_) => div_trunc(
                self.waveform_generator.spec_sample(
                    self.spec_step_state(sample_rate).phase as int,
                ) * self.params.gain,
                UNIT as int,
            ),
            None => 0,
        }
    }

    /// A fresh engine: default control values, no note held, phase
    /// zero, and the generator built for the default selection.
    pub fn new() -> (s: Self)
        ensures
            s.wf(),
            s.current_note is None,
            s.phase == 0,
            s.params.waveform == Waveform::Sine,
            s.params.gain == 16384,
            s.params.tuning == 440000,
            s.last_waveform == Waveform::Sine,
    {
        let params = VariableSynthParams::default();
        let waveform_generator = create_waveform(params.waveform);
        VariableSynth {
            last_waveform: params.waveform,
            params,
            current_note: None,
            phase: 0,
            waveform_generator,
        }
    }

    /// Apply one note event to the held-note state.
    pub fn handle_event(&mut self, e: &NoteEvent)
        requires
            old(self).wf(),
            e.note < 128,
        ensures
            *final(self) == old(self).spec_apply_event(*e),
            final(self).wf(),
    {
        match e.kind {
            NoteKind::On => {
                self.current_note = Some(e.note);
                self.phase = 0;
            },
            NoteKind::Off => {
                let release = match self.current_note {
                    Some(n) => n == e.note,
                    None => false,
                };
                if release {
                    self.current_note = None;
                }
            },
        }
    }

    /// Observe the timbre selection once and rebuild the generator on
    /// the edge of a change.
    pub fn observe_timbre(&mut self)
        requires
            old(self).wf(),
        ensures
            *final(self) == old(self).spec_retimbre(),
            final(self).wf(),
    {
        if self.params.update_waveform(self.last_waveform) {
            self.waveform_generator = create_waveform(self.params.waveform);
            self.last_waveform = self.params.waveform;
        }
    }

    /// Render one sample: advance the phase while a note is held, take
    /// the generator's sample there, and scale it by the gain.
    pub fn process_sample(&mut self, sample_rate: u32) -> (s: i64)
        requires
            old(self).wf(),
            sample_rate >= 26000,
        ensures
            *final(self) == old(self).spec_step_state(sample_rate as int),
            final(self).wf(),
            -old(self).waveform_generator.sample_bound() <= s
                <= old(self).waveform_generator.sample_bound(),
            old(self).waveform_generator.is_deterministic() ==> s == old(self).spec_step_sample(
                sample_rate as int,
            ),
    {
        proof {
            self.waveform_generator.lemma_sample_bound_at_least_unit();
            self.waveform_generator.lemma_sample_bound_at_most();
        }
        let note = match self.current_note {
            Some(n) => n,
            None => {
                return 0;
            },
        };
        let base = midi_note_to_freq(note);
        proof {
            lemma_tuned_freq_bounds(note as int, self.params.tuning as int);
            assert(base * self.params.tuning <= 12600000 * 880000) by (nonlinear_arith)
                requires
                    base < 12600000,
                    self.params.tuning <= 880000,
            ;
        }
        let frequency = (base * self.params.tuning) / 440000;
        proof {
            lemma_phase_inc_bounds(frequency as int, sample_rate as int);
        }
        let inc = hz_to_phase_inc(frequency, sample_rate);
        let sum = self.phase + inc;
        self.phase = if sum >= TURN {
            sum - TURN
        } else {
            sum
        };
        proof {
            let p = old(self).phase as int + spec_phase_inc(
                frequency as int,
                sample_rate as int,
            );
            if sum >= TURN {
                vstd::arithmetic::div_mod::lemma_mod_sub_multiples_vanish(p, TURN as int);
                vstd::arithmetic::div_mod::lemma_small_mod((sum - TURN) as nat, TURN as nat);
            } else {
                vstd::arithmetic::div_mod::lemma_small_mod(sum as nat, TURN as nat);
            }
        }
        let raw = self.waveform_generator.generate(self.phase);
        proof {
            let b = self.waveform_generator.sample_bound();
            assert(-(b * self.params.gain) <= raw * self.params.gain <= b * self.params.gain)
                by (nonlinear_arith)
                requires
                    -b <= raw <= b,
                    0 <= self.params.gain,
            ;
            assert(b * self.params.gain <= b * (UNIT as int)) by (nonlinear_arith)
                requires
                    0 <= self.params.gain <= UNIT,
                    0 <= b,
            ;
            assert(b * (UNIT as int) <= 43000000 * 32768) by (nonlinear_arith)
                requires
                    0 <= b <= 43000000,
            ;
            lemma_div_trunc_shrink((raw * self.params.gain) as int, UNIT as int, b);
        }
        div_trunc_i64(raw * self.params.gain, UNIT)
    }
}

/// What processing the rest of a buffer yields: the engine afterwards,
/// the index of the first event not yet applied, and the samples
/// emitted.
pub struct ProcessTrace {
    pub state: VariableSynth,
    pub next_event: int,
    pub output: Seq<int>,
}

/// Apply every event from index `j` on whose stamp has been reached:
/// the engine afterwards and the first unapplied index.
pub open spec fn spec_apply_due_events(
    state: VariableSynth,
    events: Seq<NoteEvent>,
    j: int,
    frame: int,
) -> (VariableSynth, int)
    decreases events.len() - j,
{
    if j < 0 || j >= events.len() || events[j].timing > frame {
        (state, j)
    } else {
        spec_apply_due_events(state.spec_apply_event(events[j]), events, j + 1, frame)
    }
}

/// Process frames `frame` up to `frames`: for each frame, apply the
/// events stamped for it, then advance and sample.
pub open spec fn spec_process(
    state: VariableSynth,
    events: Seq<NoteEvent>,
    j: int,
    frame: int,
    frames: int,
    sample_rate: int,
) -> ProcessTrace
    decreases frames - frame,
{
    if frame >= frames {
        ProcessTrace { state, next_event: j, output: Seq::empty() }
    } else {
        let (after_events, j1) = spec_apply_due_events(state, events, j, frame);
        let sample = after_events.spec_step_sample(sample_rate);
        let rest = spec_process(
            after_events.spec_step_state(sample_rate),
            events,
            j1,
            frame + 1,
            frames,
            sample_rate,
        );
        ProcessTrace {
            state: rest.state,
            next_event: rest.next_event,
            output: seq![sample] + rest.output,
        }
    }
}

impl VariableSynth {
    /// Render one buffer: observe the timbre selection once, then walk
    /// the frames, applying each event stamped at or before a frame
    /// before that frame's sample is generated.  The state the engine
    /// reaches is a pure function of where it started and the events;
    /// with a jitter-free timbre the emitted samples are too, so two
    /// renders of the same note sequence coincide sample for sample.
    pub fn process(&mut self, events: &Vec<NoteEvent>, frames: usize, sample_rate: u32) -> (out:
        Vec<i64>)
        requires
            old(self).wf(),
            sample_rate >= 26000,
            frames <= 0xffff_ffff,
            forall|j: int| 0 <= j < events@.len() ==> (#[trigger] events@[j]).note < 128,
        ensures
            final(self).wf(),
            *final(self) == spec_process(
                old(self).spec_retimbre(),
                events@,
                0,
                0,
                frames as int,
                sample_rate as int,
            ).state,
            out@.len() == frames,
            forall|k: int|
                0 <= k < frames ==> -old(self).spec_retimbre().waveform_generator.sample_bound()
                    <= #[trigger] out@[k]
                    <= old(self).spec_retimbre().waveform_generator.sample_bound(),
            old(self).spec_retimbre().waveform_generator.is_deterministic() ==> forall|k: int|
                0 <= k < frames ==> #[trigger] out@[k] == spec_process(
                    old(self).spec_retimbre(),
                    events@,
                    0,
                    0,
                    frames as int,
                    sample_rate as int,
                ).output[k],
    {
        self.observe_timbre();
        let ghost init = *self;
        let ghost sr = sample_rate as int;
        let ghost full = spec_process(init, events@, 0, 0, frames as int, sr);
        let ghost bound = init.waveform_generator.sample_bound();
        proof {
            init.waveform_generator.lemma_sample_bound_at_least_unit();
        }
        let mut out: Vec<i64> = Vec::new();
        let mut j: usize = 0;
        let mut k: usize = 0;
        while k < frames
            invariant
                k <= frames,
                frames <= 0xffff_ffff,
                j <= events@.len(),
                sr == sample_rate as int,
                sample_rate >= 26000,
                forall|e: int| 0 <= e < events@.len() ==> (#[trigger] events@[e]).note < 128,
                self.wf(),
                self.waveform_generator == init.waveform_generator,
                bound == init.waveform_generator.sample_bound(),
                full == spec_process(init, events@, 0, 0, frames as int, sr),
                out@.len() == k,
                forall|m: int| 0 <= m < k ==> -bound <= #[trigger] out@[m] <= bound,
                ({
                    let rest = spec_process(*self, events@, j as int, k as int, frames as int, sr);
                    &&& full.state == rest.state
                    &&& full.next_event == rest.next_event
                    &&& (init.waveform_generator.is_deterministic() ==> full.output
                        == out@.map_values(|x: i64| x as int) + rest.output)
                }),
            decreases frames - k,
        {
            let ghost frame_state = *self;
            let ghost j0 = j as int;
            while j < events.len() && events[j].timing <= k as u32
                invariant
                    j0 <= j as int <= events@.len(),
                    k < frames,
                    frames <= 0xffff_ffff,
                    forall|e: int| 0 <= e < events@.len() ==> (#[trigger] events@[e]).note < 128,
                    self.wf(),
                    self.waveform_generator == frame_state.waveform_generator,
                    self.params == frame_state.params,
                    spec_apply_due_events(frame_state, events@, j0, k as int)
                        == spec_apply_due_events(*self, events@, j as int, k as int),
                decreases events@.len() - j,
            {
                let e = events[j];
                self.handle_event(&e);
                j = j + 1;
            }
            proof {
                assert(spec_apply_due_events(frame_state, events@, j0, k as int) == (
                    *self,
                    j as int,
                ));
            }
            let s = self.process_sample(sample_rate);
            out.push(s);
            k = k + 1;
            proof {
                assert(out@.map_values(|x: i64| x as int) =~= out@.subrange(
                    0,
                    k as int - 1,
                ).map_values(|x: i64| x as int) + seq![s as int]);
            }
        }
        out
    }
}

} // verus!
