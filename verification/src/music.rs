//! Tunes for the passive buzzer: tones, songs written in note values, and the
//! order in which a tune is played.
use vstd::prelude::*;
use crate::buzzer::Error;

verus! {

/// One tone of a tune: a frequency in hertz (0 for a rest) and a duration in
/// milliseconds.
#[derive(PartialEq, Eq, Structural, Clone, Copy, Debug)]
pub struct ToneValue {
    pub frequency: u32,
    pub duration: u32,
}

/// Milliseconds of a whole note at one beat per minute: 240 seconds, scaled
/// by 12.
pub const WHOLE_NOTE_AT_ONE_BPM_MS: u32 = 2_880_000;

/// The length of a whole note, in milliseconds, at `tempo` beats per minute.
pub open spec fn whole_note_spec(tempo: nat) -> nat {
    WHOLE_NOTE_AT_ONE_BPM_MS as nat / tempo
}

/// The tone of a note given as its frequency and note value (4 for a quarter
/// note, 8 for an eighth, ...) at `tempo` beats per minute.
pub open spec fn song_tone_spec(tempo: nat, note: u32, divider: nat) -> ToneValue {
    ToneValue { frequency: note, duration: (whole_note_spec(tempo) / divider) as u32 }
}

/// The length of a whole note, in milliseconds, at `tempo` beats per minute.
pub fn whole_note_ms(tempo: u32) -> (ms: u32)
    requires
        tempo > 0,
    ensures
        ms == whole_note_spec(tempo as nat),
{
    WHOLE_NOTE_AT_ONE_BPM_MS / tempo
}

/// The tone of a note at `tempo` beats per minute.
pub fn song_tone(tempo: u32, note: u32, divider: u32) -> (tone: ToneValue)
    requires
        tempo > 0,
        divider > 0,
    ensures
        tone == song_tone_spec(tempo as nat, note, divider as nat),
{
    ToneValue { frequency: note, duration: whole_note_ms(tempo) / divider }
}

/// A song: the tones of a list of notes (frequency, note value) at `tempo`
/// beats per minute.
pub fn song(tempo: u32, notes: &[(u32, u32)]) -> (tones: Vec<ToneValue>)
    requires
        tempo > 0,
        forall|i: int| 0 <= i < notes@.len() ==> #[trigger] notes@[i].1 > 0,
    ensures
        tones@.len() == notes@.len(),
        forall|i: int|
            0 <= i < notes@.len() ==> #[trigger] tones@[i] == song_tone_spec(
                tempo as nat,
                notes@[i].0,
                notes@[i].1 as nat,
            ),
{
    let mut tones: Vec<ToneValue> = Vec::new();
    let mut i: usize = 0;
    while i < notes.len()
        invariant
            tempo > 0,
            i <= notes@.len(),
            forall|k: int| 0 <= k < notes@.len() ==> #[trigger] notes@[k].1 > 0,
            tones@.len() == i,
            forall|k: int|
                0 <= k < i ==> #[trigger] tones@[k] == song_tone_spec(
                    tempo as nat,
                    notes@[k].0,
                    notes@[k].1 as nat,
                ),
        decreases notes@.len() - i,
    {
        let (note, divider) = notes[i];
        tones.push(song_tone(tempo, note, divider));
        i = i + 1;
    }
    tones
}

/// One step of playing a tune.
#[derive(PartialEq, Eq, Structural, Clone, Copy, Debug)]
pub enum PlayStep {
    /// Start playing a frequency.
    Play(u32),
    /// Wait this many milliseconds.
    Wait(u32),
    /// Silence the buzzer.
    Mute,
    /// The tune is over.
    Done,
}

/// Step `p` of playing `tones`: each tone is played, held for its duration
/// and muted, in order; a last mute follows, then the tune is over.
pub open spec fn step_at(tones: Seq<ToneValue>, p: nat) -> PlayStep {
    if p < 3 * tones.len() {
        let t = tones[p as int / 3];
        if p % 3 == 0 {
            PlayStep::Play(t.frequency)
        } else if p % 3 == 1 {
            PlayStep::Wait(t.duration)
        } else {
            PlayStep::Mute
        }
    } else if p == 3 * tones.len() {
        PlayStep::Mute
    } else {
        PlayStep::Done
    }
}

/// The playing of a tune, step by step.
pub struct Playback {
    tones: Vec<ToneValue>,
    index: usize,
    phase: u8,
    finished: bool,
}

impl Playback {
    /// The tones of the tune.
    pub closed spec fn tones(&self) -> Seq<ToneValue> {
        self.tones@
    }

    /// How many steps were taken.
    pub closed spec fn position(&self) -> nat {
        if self.finished {
            (3 * self.tones@.len() + 1) as nat
        } else {
            (3 * self.index + self.phase) as nat
        }
    }

    #[verifier::type_invariant]
    spec fn inv(&self) -> bool {
        &&& self.phase < 3
        &&& self.index <= self.tones@.len()
        &&& self.index == self.tones@.len() ==> self.phase == 0
    }

    /// Plays a tune.
    pub fn new(tones: Vec<ToneValue>) -> (playback: Self)
        ensures
            playback.tones() == tones@,
            playback.position() == 0,
    {
        Playback { tones, index: 0, phase: 0, finished: false }
    }

    /// Plays a song given as tones.
    pub fn from_song(tones: &[ToneValue]) -> (playback: Self)
        ensures
            playback.tones() == tones@,
            playback.position() == 0,
    {
        let mut v: Vec<ToneValue> = Vec::new();
        v.extend_from_slice(tones);
        Self::new(v)
    }

    /// Plays frequencies with their timings, pairwise. The two lists must be
    /// of the same length.
    pub fn from_pairs(frequencies: &[u32], timings: &[u32]) -> (result: Result<Self, Error>)
        ensures
            frequencies@.len() != timings@.len() ==> result == Err::<Self, Error>(Error::LengthMismatch),
            frequencies@.len() == timings@.len() ==> (result matches Ok(p) && p.position() == 0
                && p.tones().len() == frequencies@.len() && forall|i: int|
                0 <= i < frequencies@.len() ==> #[trigger] p.tones()[i] == (ToneValue {
                    frequency: frequencies@[i],
                    duration: timings@[i],
                })),
    {
        if frequencies.len() != timings.len() {
            return Err(Error::LengthMismatch);
        }
        let mut tones: Vec<ToneValue> = Vec::new();
        let mut i: usize = 0;
        while i < frequencies.len()
            invariant
                frequencies@.len() == timings@.len(),
                i <= frequencies@.len(),
                tones@.len() == i,
                forall|k: int|
                    0 <= k < i ==> #[trigger] tones@[k] == (ToneValue {
                        frequency: frequencies@[k],
                        duration: timings@[k],
                    }),
            decreases frequencies@.len() - i,
        {
            tones.push(ToneValue { frequency: frequencies[i], duration: timings[i] });
            i = i + 1;
        }
        Ok(Self::new(tones))
    }

    /// The next step of the tune.
    pub fn next_step(&mut self) -> (step: PlayStep)
        ensures
            final(self).tones() == old(self).tones(),
            step == step_at(old(self).tones(), old(self).position()),
            final(self).position() == if step == PlayStep::Done {
                old(self).position()
            } else {
                old(self).position() + 1
            },
    {
        proof { use_type_invariant(&*self); }
        if self.finished {
            return PlayStep::Done;
        }
        if self.index == self.tones.len() {
            *self = Playback { tones: self.tones.clone(), index: self.index, phase: 0, finished: true };
            return PlayStep::Mute;
        }
        let tone = self.tones[self.index];
        let phase = self.phase;
        let index = self.index;
        let ghost p = 3 * index + phase;
        assert(p / 3 == index as int && p % 3 == phase as int) by (nonlinear_arith)
            requires
                p == 3 * index + phase,
                phase < 3,
        ;
        if phase == 0 {
            self.phase = 1;
            PlayStep::Play(tone.frequency)
        } else if phase == 1 {
            self.phase = 2;
            PlayStep::Wait(tone.duration)
        } else {
            *self = Playback { tones: self.tones.clone(), index: index + 1, phase: 0, finished: false };
            PlayStep::Mute
        }
    }
}

/// A whole note lasts 2,880,000 milliseconds divided by the tempo, rounded
/// down, and a note of value `divider` lasts a whole note divided by it,
/// rounded down, at its own frequency.
pub proof fn lemma_note_lengths(tempo: nat, note: u32, divider: nat)
    requires
        tempo > 0,
        divider > 0,
    ensures
        whole_note_spec(tempo) * tempo <= 2_880_000 < (whole_note_spec(tempo) + 1) * tempo,
        song_tone_spec(tempo, note, divider).frequency == note,
        song_tone_spec(tempo, note, divider).duration * divider <= whole_note_spec(tempo),
        whole_note_spec(tempo) < (song_tone_spec(tempo, note, divider).duration + 1) * divider,
{
    let w = whole_note_spec(tempo);
    assert(w * tempo <= 2_880_000 < (w + 1) * tempo) by (nonlinear_arith)
        requires
            w == 2_880_000nat / tempo,
            tempo > 0,
    ;
    assert(w <= 2_880_000) by (nonlinear_arith)
        requires
            w == 2_880_000nat / tempo,
            tempo > 0,
    ;
    let d = w / divider;
    assert(d * divider <= w < (d + 1) * divider) by (nonlinear_arith)
        requires
            d == w / divider,
            divider > 0,
    ;
    assert(d <= w) by (nonlinear_arith)
        requires
            d == w / divider,
            divider > 0,
    ;
}

/// The steps of a tune: tone `i` is played at step `3i`, held for its
/// duration at step `3i + 1` and muted at step `3i + 2`; after the last tone
/// comes one more mute, and then the tune is over for good.
pub proof fn lemma_tune_steps(tones: Seq<ToneValue>, i: nat, p: nat)
    ensures
        i < tones.len() ==> step_at(tones, 3 * i) == PlayStep::Play(tones[i as int].frequency),
        i < tones.len() ==> step_at(tones, 3 * i + 1) == PlayStep::Wait(tones[i as int].duration),
        i < tones.len() ==> step_at(tones, 3 * i + 2) == PlayStep::Mute,
        step_at(tones, 3 * tones.len()) == PlayStep::Mute,
        p > 3 * tones.len() ==> step_at(tones, p) == PlayStep::Done,
{
    if i < tones.len() {
        assert((3 * i) as int / 3 == i && (3 * i) % 3 == 0) by (nonlinear_arith);
        assert((3 * i + 1) as int / 3 == i && (3 * i + 1) % 3 == 1) by (nonlinear_arith);
        assert((3 * i + 2) as int / 3 == i && (3 * i + 2) % 3 == 2) by (nonlinear_arith);
    }
}

} // verus!
