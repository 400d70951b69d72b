//! The fixed-capacity voice pool: allocation on note-on, release on
//! note-off, and mixing of every voice into the output.
//!
//! The pool owns the single active generator; every voice reads it and
//! none duplicates it.  Release works through an explicit note-to-voice
//! table maintained at allocation time, so a note-off always frees
//! exactly the voice its note-on claimed — no tolerance matching on
//! frequencies.  A note-on that finds no idle voice is silently
//! dropped: no stealing, no queue.

use vstd::prelude::*;
use crate::fixed::{TURN, UNIT, div_trunc, div_trunc_i64, lemma_div_trunc_shrink};
use crate::utils::{spec_midi_freq, midi_note_to_freq, lemma_midi_freq_bounds};
use crate::synth::WaveformGenerator;
use crate::voice::Voice;

verus! {

/// The number of MIDI notes the table covers.
pub const NOTE_RANGE: usize = 128;

/// The default pool capacity.
pub const MAX_VOICES: usize = 16;

/// The first idle slot at or after index `i`, or the pool size when
/// every slot from `i` on is sounding.
pub open spec fn first_idle_from(voices: Seq<Voice>, i: int) -> int
    decreases voices.len() - i,
{
    if i < 0 || i >= voices.len() {
        voices.len() as int
    } else if !voices[i].is_active {
        i
    } else {
        first_idle_from(voices, i + 1)
    }
}

/// The first idle slot of the pool, in fixed index order.
pub open spec fn first_idle(voices: Seq<Voice>) -> int {
    first_idle_from(voices, 0)
}

/// What `first_idle_from` finds: every earlier slot from `i` sounds,
/// and the found slot (if any) is idle.
pub proof fn lemma_first_idle_from_props(voices: Seq<Voice>, i: int)
    requires
        0 <= i <= voices.len(),
    ensures
        i <= first_idle_from(voices, i) <= voices.len(),
        first_idle_from(voices, i) < voices.len() ==> !voices[first_idle_from(
            voices,
            i,
        )].is_active,
        forall|j: int|
            i <= j < first_idle_from(voices, i) ==> (#[trigger] voices[j]).is_active,
    decreases voices.len() - i,
{
    if i < voices.len() && voices[i].is_active {
        lemma_first_idle_from_props(voices, i + 1);
    }
}

/// What the pool's first idle slot satisfies.
pub proof fn lemma_first_idle_props(voices: Seq<Voice>)
    ensures
        0 <= first_idle(voices) <= voices.len(),
        first_idle(voices) < voices.len() ==> !voices[first_idle(voices)].is_active,
        forall|j: int| 0 <= j < first_idle(voices) ==> (#[trigger] voices[j]).is_active,
{
    lemma_first_idle_from_props(voices, 0);
}

/// A pool where every voice sounds has no idle slot.
pub proof fn lemma_first_idle_full(voices: Seq<Voice>)
    requires
        forall|j: int| 0 <= j < voices.len() ==> (#[trigger] voices[j]).is_active,
    ensures
        first_idle(voices) == voices.len(),
{
    lemma_first_idle_props(voices);
    if first_idle(voices) < voices.len() {
        assert(voices[first_idle(voices)].is_active);
    }
}

/// The pool: a fixed-length sequence of voices sharing one generator,
/// and the note-to-voice table that pairs each sounding note with the
/// slot it occupies.
pub struct VoiceManager {
    pub generator: WaveformGenerator,
    pub voices: Vec<Voice>,
    pub note_table: Vec<Option<usize>>,
}

impl VoiceManager {
    /// The pool's invariant: a valid generator; between 1 and 32
    /// voices, each well-formed; a table entry points at a sounding
    /// voice carrying that note; and every sounding voice is claimed
    /// by exactly its own note's entry.  A sounding voice's frequency
    /// is always the frequency of its note.
    pub open spec fn wf(self) -> bool {
        &&& self.generator.wf()
        &&& 1 <= self.voices@.len() <= 32
        &&& self.note_table@.len() == NOTE_RANGE
        &&& forall|i: int| 0 <= i < self.voices@.len() ==> (#[trigger] self.voices@[i]).wf()
        &&& forall|k: int|
            0 <= k < NOTE_RANGE ==> match #[trigger] self.note_table@[k] {
                Some(i) => {
                    &&& (i as int) < self.voices@.len()
                    &&& self.voices@[i as int].is_active
                    &&& self.voices@[i as int].note == k
                },
                None => true,
            }
        &&& forall|i: int|
            0 <= i < self.voices@.len() && (#[trigger] self.voices@[i]).is_active ==> {
                &&& self.voices@[i].note < 128
                &&& self.note_table@[self.voices@[i].note as int] == Some(i as usize)
                &&& self.voices@[i].frequency == spec_midi_freq(self.voices@[i].note as int)
            }
    }

    /// A pool of `num_voices` idle voices around one generator.
    pub fn with_capacity(generator: WaveformGenerator, num_voices: usize) -> (m: Self)
        requires
            generator.wf(),
            1 <= num_voices <= 32,
        ensures
            m.wf(),
            m.generator == generator,
            m.voices@.len() == num_voices,
            forall|i: int|
                0 <= i < num_voices ==> !(#[trigger] m.voices@[i]).is_active && m.voices@[i].phase
                    == 0,
            forall|k: int| 0 <= k < NOTE_RANGE ==> #[trigger] m.note_table@[k] is None,
    {
        let mut voices: Vec<Voice> = Vec::new();
        let mut i: usize = 0;
        while i < num_voices
            invariant
                i <= num_voices,
                voices@.len() == i,
                forall|j: int|
                    0 <= j < i ==> (#[trigger] voices@[j]).wf() && !voices@[j].is_active
                        && voices@[j].phase == 0,
            decreases num_voices - i,
        {
            voices.push(Voice::new());
            i = i + 1;
        }
        let mut note_table: Vec<Option<usize>> = Vec::new();
        let mut k: usize = 0;
        while k < NOTE_RANGE
            invariant
                k <= NOTE_RANGE,
                note_table@.len() == k,
                forall|j: int| 0 <= j < k ==> #[trigger] note_table@[j] is None,
            decreases NOTE_RANGE - k,
        {
            note_table.push(None);
            k = k + 1;
        }
        VoiceManager { generator, voices, note_table }
    }

    /// A pool at the default capacity of sixteen voices.
    pub fn new(generator: WaveformGenerator) -> (m: Self)
        requires
            generator.wf(),
        ensures
            m.wf(),
            m.generator == generator,
            m.voices@.len() == MAX_VOICES,
            forall|i: int|
                0 <= i < MAX_VOICES ==> !(#[trigger] m.voices@[i]).is_active && m.voices@[i].phase
                    == 0,
            forall|k: int| 0 <= k < NOTE_RANGE ==> #[trigger] m.note_table@[k] is None,
    {
        Self::with_capacity(generator, MAX_VOICES)
    }

    /// The index of the first idle voice, or the pool size when every
    /// voice sounds.
    fn find_first_idle(&self) -> (r: usize)
        ensures
            r as int == first_idle(self.voices@),
    {
        let n = self.voices.len();
        let mut i: usize = 0;
        while i < n
            invariant
                i <= n,
                n == self.voices@.len(),
                first_idle(self.voices@) == first_idle_from(self.voices@, i as int),
            decreases n - i,
        {
            if !self.voices[i].is_active() {
                return i;
            }
            i = i + 1;
        }
        i
    }

    /// Allocate a voice for `note`: the first idle slot, scanned in
    /// fixed index order, takes the note's frequency and starts
    /// sounding from its frozen phase.  A note that is already
    /// sounding keeps its voice, and a full pool drops the note
    /// silently — the pool is unchanged in both cases.
    pub fn note_on(&mut self, note: u8, velocity: u8)
        requires
            old(self).wf(),
            note < 128,
        ensures
            final(self).wf(),
            final(self).generator == old(self).generator,
            final(self).voices@.len() == old(self).voices@.len(),
            old(self).note_table@[note as int] is Some ==> *final(self) == *old(self),
            (old(self).note_table@[note as int] is None && first_idle(old(self).voices@)
                == old(self).voices@.len()) ==> *final(self) == *old(self),
            (old(self).note_table@[note as int] is None && first_idle(old(self).voices@)
                < old(self).voices@.len()) ==> {
                let i = first_idle(old(self).voices@);
                &&& final(self).voices@ == old(self).voices@.update(
                    i,
                    (Voice {
                        phase: old(self).voices@[i].phase,
                        frequency: spec_midi_freq(note as int) as u64,
                        is_active: true,
                        note: note,
                    }),
                )
                &&& final(self).note_table@ == old(self).note_table@.update(
                    note as int,
                    Some(i as usize),
                )
            },
    {
        let _ = velocity;
        if self.note_table[note as usize].is_some() {
            return ;
        }
        proof {
            lemma_first_idle_props(self.voices@);
        }
        let i = self.find_first_idle();
        if i == self.voices.len() {
            return ;
        }
        let frequency = midi_note_to_freq(note);
        let v0 = self.voices[i];
        let v = Voice { phase: v0.phase, frequency, is_active: true, note };
        self.voices[i] = v;
        self.note_table[note as usize] = Some(i);
        proof {
            let pre = *old(self);
            let post = *self;
            assert forall|k: int| 0 <= k < NOTE_RANGE implies match #[trigger] post.note_table@[k] {
                Some(j) => {
                    &&& (j as int) < post.voices@.len()
                    &&& post.voices@[j as int].is_active
                    &&& post.voices@[j as int].note == k
                },
                None => true,
            } by {
                if k != note as int {
                    assert(post.note_table@[k] == pre.note_table@[k]);
                    match pre.note_table@[k] {
                        Some(j) => {
                            assert(pre.voices@[j as int].is_active);
                            assert(j as int != i as int);
                        },
                        None => {},
                    }
                }
            }
            assert forall|j: int|
                0 <= j < post.voices@.len() && (#[trigger] post.voices@[j]).is_active implies {
                &&& post.voices@[j].note < 128
                &&& post.note_table@[post.voices@[j].note as int] == Some(j as usize)
                &&& post.voices@[j].frequency == spec_midi_freq(post.voices@[j].note as int)
            } by {
                if j != i as int {
                    assert(post.voices@[j] == pre.voices@[j]);
                    assert(pre.note_table@[pre.voices@[j].note as int] == Some(j as usize));
                    assert(pre.voices@[j].note != note);
                }
            }
        }
    }

    /// Release the voice sounding `note`, if any: the table entry
    /// names it directly.  Its phase and frequency are kept so a later
    /// reuse continues smoothly.  Releasing a note that is not
    /// sounding — never allocated, already released, or dropped by a
    /// full pool — changes nothing.
    pub fn note_off(&mut self, note: u8)
        requires
            old(self).wf(),
            note < 128,
        ensures
            final(self).wf(),
            final(self).generator == old(self).generator,
            final(self).voices@.len() == old(self).voices@.len(),
            old(self).note_table@[note as int] is None ==> *final(self) == *old(self),
            forall|i: usize|
                old(self).note_table@[note as int] == Some(i) ==> {
                    &&& final(self).voices@ == old(self).voices@.update(
                        i as int,
                        (Voice { is_active: false, ..old(self).voices@[i as int] }),
                    )
                    &&& final(self).note_table@ == old(self).note_table@.update(
                        note as int,
                        None,
                    )
                },
    {
        match self.note_table[note as usize] {
            None => {},
            Some(i) => {
                let mut v = self.voices[i];
                v.is_active = false;
                self.voices[i] = v;
                self.note_table[note as usize] = None;
                proof {
                    let pre = *old(self);
                    let post = *self;
                    assert forall|k: int|
                        0 <= k < NOTE_RANGE implies match #[trigger] post.note_table@[k] {
                        Some(j) => {
                            &&& (j as int) < post.voices@.len()
                            &&& post.voices@[j as int].is_active
                            &&& post.voices@[j as int].note == k
                        },
                        None => true,
                    } by {
                        if k != note as int {
                            match pre.note_table@[k] {
                                Some(j) => {
                                    assert(pre.voices@[j as int].note == k);
                                    assert(j as int != i as int);
                                },
                                None => {},
                            }
                        }
                    }
                    assert forall|j: int|
                        0 <= j < post.voices@.len() && (#[trigger] post.voices@[j]).is_active
                        implies {
                        &&& post.voices@[j].note < 128
                        &&& post.note_table@[post.voices@[j].note as int] == Some(j as usize)
                        &&& post.voices@[j].frequency == spec_midi_freq(
                            post.voices@[j].note as int,
                        )
                    } by {
                        assert(j != i as int);
                        assert(post.voices@[j] == pre.voices@[j]);
                        assert(pre.voices@[j].note != note);
                    }
                }
            },
        }
    }

    /// Silence every voice and zero every phase, keeping the pool and
    /// its generator allocated.
    pub fn reset(&mut self)
        requires
            old(self).wf(),
        ensures
            final(self).wf(),
            final(self).generator == old(self).generator,
            final(self).voices@.len() == old(self).voices@.len(),
            forall|i: int|
                0 <= i < old(self).voices@.len() ==> #[trigger] final(self).voices@[i] == (Voice {
                    phase: 0,
                    is_active: false,
                    ..old(self).voices@[i]
                }),
            forall|k: int| 0 <= k < NOTE_RANGE ==> #[trigger] final(self).note_table@[k] is None,
    {
        let n = self.voices.len();
        let mut i: usize = 0;
        while i < n
            invariant
                i <= n,
                n == self.voices@.len(),
                self.voices@.len() == old(self).voices@.len(),
                self.generator == old(self).generator,
                self.note_table == old(self).note_table,
                old(self).wf(),
                forall|j: int|
                    0 <= j < i ==> #[trigger] self.voices@[j] == (Voice {
                        phase: 0,
                        is_active: false,
                        ..old(self).voices@[j]
                    }),
                forall|j: int|
                    i <= j < n ==> #[trigger] self.voices@[j] == old(self).voices@[j],
            decreases n - i,
        {
            let mut v = self.voices[i];
            v.phase = 0;
            v.is_active = false;
            self.voices[i] = v;
            i = i + 1;
        }
        let mut k: usize = 0;
        while k < NOTE_RANGE
            invariant
                k <= NOTE_RANGE,
                self.note_table@.len() == NOTE_RANGE,
                self.voices@.len() == old(self).voices@.len(),
                self.generator == old(self).generator,
                old(self).wf(),
                forall|j: int|
                    0 <= j < old(self).voices@.len() ==> #[trigger] self.voices@[j] == (Voice {
                        phase: 0,
                        is_active: false,
                        ..old(self).voices@[j]
                    }),
                forall|j: int| 0 <= j < k ==> #[trigger] self.note_table@[j] is None,
            decreases NOTE_RANGE - k,
        {
            self.note_table[k] = None;
            k = k + 1;
        }
    }

    /// Replace the shared generator and rebuild the whole pool from
    /// scratch: the timbre change silences every sounding note and
    /// discards every voice's phase and frequency.
    pub fn retune(&mut self, new_generator: WaveformGenerator)
        requires
            old(self).wf(),
            new_generator.wf(),
        ensures
            final(self).wf(),
            final(self).generator == new_generator,
            final(self).voices@.len() == old(self).voices@.len(),
            forall|i: int|
                0 <= i < old(self).voices@.len() ==> !(#[trigger] final(self).voices@[i]).is_active
                    && final(self).voices@[i].phase == 0,
            forall|k: int| 0 <= k < NOTE_RANGE ==> #[trigger] final(self).note_table@[k] is None,
    {
        let n = self.voices.len();
        *self = Self::with_capacity(new_generator, n);
    }

    /// With every voice already sounding, there is no idle slot, so a
    /// further note-on leaves the pool exactly as it was (by the
    /// contract of `note_on`), and every later mix — a function of the
    /// pool's state alone — is the same as without that note.
    pub proof fn lemma_full_pool_drops_note(self)
        requires
            forall|j: int| 0 <= j < self.voices@.len() ==> (#[trigger] self.voices@[j]).is_active,
        ensures
            first_idle(self.voices@) == self.voices@.len(),
    {
        lemma_first_idle_full(self.voices@);
    }
}

/// The sum of the sounding voices' samples over the first `i` slots of
/// the pool; idle slots contribute silence.
pub open spec fn spec_row_sum(voices: Seq<Voice>, g: WaveformGenerator, i: int) -> int
    decreases i,
{
    if i <= 0 {
        0
    } else {
        spec_row_sum(voices, g, i - 1) + if voices[i - 1].is_active {
            g.spec_sample(voices[i - 1].phase as int)
        } else {
            0
        }
    }
}

/// Every voice advanced by `n` samples.
pub open spec fn spec_advanced(voices: Seq<Voice>, sample_rate: int, n: nat) -> Seq<Voice> {
    voices.map_values(|v: Voice| v.spec_after(sample_rate, n))
}

/// The mixed output of frame `k`: every voice's contribution at its
/// phase of that frame, summed and divided by the pool capacity.
pub open spec fn spec_mix_frame(m: VoiceManager, sample_rate: int, k: nat) -> int {
    div_trunc(
        spec_row_sum(
            spec_advanced(m.voices@, sample_rate, k),
            m.generator,
            m.voices@.len() as int,
        ),
        m.voices@.len() as int,
    )
}

impl VoiceManager {
    /// Fill `frames` output samples: for each frame, every voice
    /// contributes its sample (silence while idle) and advances in
    /// lockstep, and the sum is divided by the pool capacity — fixed
    /// gain averaging, so one note's loudness is inversely
    /// proportional to the capacity.
    ///
    /// The sample rate must clear twice the highest MIDI frequency
    /// (about 12.6 kHz), the Nyquist rule the caller maintains.
    pub fn generate_samples(&mut self, frames: usize, sample_rate: u32) -> (out: Vec<i64>)
        requires
            old(self).wf(),
            sample_rate >= 26000,
        ensures
            final(self).wf(),
            final(self).generator == old(self).generator,
            final(self).note_table == old(self).note_table,
            final(self).voices@ == spec_advanced(
                old(self).voices@,
                sample_rate as int,
                frames as nat,
            ),
            out@.len() == frames,
            forall|k: int|
                0 <= k < frames ==> -old(self).generator.sample_bound() <= #[trigger] out@[k]
                    <= old(self).generator.sample_bound(),
            old(self).generator.is_deterministic() ==> forall|k: int|
                0 <= k < frames ==> #[trigger] out@[k] == spec_mix_frame(
                    *old(self),
                    sample_rate as int,
                    k as nat,
                ),
    {
        let ghost sr = sample_rate as int;
        proof {
            assert forall|j: int| 0 <= j < old(self).voices@.len() implies #[trigger] old(
                self,
            ).voices@[j].spec_after(sr, 0) == old(self).voices@[j] by {
                old(self).voices@[j].lemma_after_zero(sr);
            }
            assert(self.voices@ =~= spec_advanced(old(self).voices@, sr, 0));
        }
        let mut out: Vec<i64> = Vec::new();
        let n = self.voices.len();
        let mut k: usize = 0;
        while k < frames
            invariant
                k <= frames,
                n == self.voices@.len(),
                old(self).wf(),
                self.wf(),
                sample_rate >= 26000,
                sr == sample_rate as int,
                self.generator == old(self).generator,
                self.note_table == old(self).note_table,
                self.voices@ =~= spec_advanced(old(self).voices@, sr, k as nat),
                out@.len() == k,
                forall|j: int|
                    0 <= j < k ==> -old(self).generator.sample_bound() <= #[trigger] out@[j]
                        <= old(self).generator.sample_bound(),
                old(self).generator.is_deterministic() ==> forall|j: int|
                    0 <= j < k ==> #[trigger] out@[j] == spec_mix_frame(*old(self), sr, j as nat),
            decreases frames - k,
        {
            let ghost row = self.voices@;
            let ghost g = self.generator;
            let ghost bound = g.sample_bound();
            proof {
                g.lemma_sample_bound_at_least_unit();
                g.lemma_sample_bound_at_most();
            }
            let mut sum: i64 = 0;
            let mut i: usize = 0;
            while i < n
                invariant
                    i <= n,
                    1 <= n <= 32,
                    n == self.voices@.len(),
                    sample_rate >= 26000,
                    sr == sample_rate as int,
                    g == self.generator,
                    bound == g.sample_bound(),
                    UNIT <= bound <= 43000000,
                    self.generator.wf(),
                    self.note_table == old(self).note_table,
                    row.len() == n,
                    forall|j: int| 0 <= j < n ==> (#[trigger] row[j]).wf(),
                    forall|j: int|
                        0 <= j < n && (#[trigger] row[j]).is_active ==> row[j].frequency
                            == spec_midi_freq(row[j].note as int) && row[j].note < 128,
                    forall|j: int|
                        0 <= j < i ==> #[trigger] self.voices@[j] == row[j].spec_stepped(sr),
                    forall|j: int| i <= j < n ==> #[trigger] self.voices@[j] == row[j],
                    -((i as int) * bound) <= sum <= (i as int) * bound,
                    g.is_deterministic() ==> sum == spec_row_sum(row, g, i as int),
                decreases n - i,
            {
                let mut v = self.voices[i];
                proof {
                    if v.is_active {
                        lemma_midi_freq_bounds(v.note as int);
                    }
                }
                let s = v.generate_sample(&self.generator, sample_rate);
                self.voices[i] = v;
                proof {
                    assert(-((i as int + 1) * bound) <= sum + s <= (i as int + 1) * bound)
                        by (nonlinear_arith)
                        requires
                            -((i as int) * bound) <= sum <= (i as int) * bound,
                            -bound <= s <= bound,
                    ;
                    assert((i as int + 1) * bound <= 33 * 43000000) by (nonlinear_arith)
                        requires
                            0 <= i as int + 1 <= 33,
                            0 <= bound <= 43000000,
                    ;
                    assert(-(33 * 43000000) <= -((i as int + 1) * bound)) by (nonlinear_arith)
                        requires
                            0 <= i as int + 1 <= 33,
                            0 <= bound <= 43000000,
                    ;
                }
                sum = sum + s;
                i = i + 1;
            }
            proof {
                assert forall|j: int| 0 <= j < n implies #[trigger] self.voices@[j] == old(
                    self,
                ).voices@[j].spec_after(sr, (k + 1) as nat) by {
                    assert(row[j] == old(self).voices@[j].spec_after(sr, k as nat));
                    if old(self).voices@[j].is_active {
                        lemma_midi_freq_bounds(old(self).voices@[j].note as int);
                    }
                    old(self).voices@[j].lemma_after_step(sr, k as nat);
                }
                assert(self.voices@ =~= spec_advanced(old(self).voices@, sr, (k + 1) as nat));
                assert(-(bound * (n as int)) <= sum as int <= bound * (n as int))
                    by (nonlinear_arith)
                    requires
                        -((n as int) * bound) <= sum as int <= (n as int) * bound,
                ;
                lemma_div_trunc_shrink(sum as int, n as int, bound);
                assert(-(33 * 43000000) <= sum as int) by (nonlinear_arith)
                    requires
                        -((n as int) * bound) <= sum as int,
                        1 <= n as int <= 32,
                        0 <= bound <= 43000000,
                ;
            }
            let mixed = div_trunc_i64(sum, n as i64);
            proof {
                if g.is_deterministic() {
                    assert(mixed == spec_mix_frame(*old(self), sr, k as nat));
                }
            }
            out.push(mixed);
            k = k + 1;
        }
        out
    }
}

} // verus!
