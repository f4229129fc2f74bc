//! Voice allocation of the built-in test synthesizer: a fixed bank of
//! sixteen voices that note events switch on and off. A note already
//! sounding is given its new gain rather than a second voice; a note-on with
//! every voice busy is dropped. Phase and gain are `f32` bit patterns; the
//! sound itself is computed by the audio callback.
use vstd::prelude::*;
use crate::midi_input::PluginMidiEvent;

verus! {

/// Voices in the bank.
pub const MAX_VOICES: usize = 16;

/// One voice: the note it plays, its oscillator phase and its gain (both
/// `f32` bits), and whether it sounds.
#[derive(Debug, Clone, Copy, PartialEq, Eq, Structural)]
pub struct Voice {
    pub key: u8,
    pub phase_bits: u32,
    pub gain_bits: u32,
    pub active: bool,
}

/// The first sounding voice that plays `key`.
pub open spec fn first_playing(vs: Seq<Voice>, key: u8) -> Option<int>
    decreases vs.len(),
{
    if vs.len() == 0 {
        None
    } else {
        match first_playing(vs.drop_last(), key) {
            Some(i) => Some(i),
            None => if vs.last().active && vs.last().key == key { Some(vs.len() - 1) } else { None },
        }
    }
}

/// The first silent voice.
pub open spec fn first_free(vs: Seq<Voice>) -> Option<int>
    decreases vs.len(),
{
    if vs.len() == 0 {
        None
    } else {
        match first_free(vs.drop_last()) {
            Some(i) => Some(i),
            None => if !vs.last().active { Some(vs.len() - 1) } else { None },
        }
    }
}

/// A note-on: the voice already playing the key takes the new gain;
/// otherwise the first silent voice starts the key from phase 0; with every
/// voice busy nothing changes.
pub open spec fn with_note_on(vs: Seq<Voice>, key: u8, gain_bits: u32) -> Seq<Voice> {
    match first_playing(vs, key) {
        Some(i) => vs.update(i, Voice { gain_bits, ..vs[i] }),
        None => match first_free(vs) {
            Some(j) => vs.update(j, Voice { key, phase_bits: 0, gain_bits, active: true }),
            None => vs,
        },
    }
}

/// A note-off: the voice playing the key falls silent, if there is one.
pub open spec fn with_note_off(vs: Seq<Voice>, key: u8) -> Seq<Voice> {
    match first_playing(vs, key) {
        Some(i) => vs.update(i, Voice { active: false, ..vs[i] }),
        None => vs,
    }
}

/// What a queued event does to the voices: a note-on with a velocity is a
/// note-on with `gain_bits`, a note-on with velocity zero or a note-off is a
/// note-off, anything else changes nothing.
pub open spec fn with_event(vs: Seq<Voice>, e: PluginMidiEvent, gain_bits: u32) -> Seq<Voice> {
    let status = e.status & 0xF0u8;
    if status == 0x90 && e.velocity > 0 {
        with_note_on(vs, e.key, gain_bits)
    } else if status == 0x80 || (status == 0x90 && e.velocity == 0) {
        with_note_off(vs, e.key)
    } else {
        vs
    }
}

/// No two sounding voices play the same key.
pub open spec fn keys_distinct(vs: Seq<Voice>) -> bool {
    forall|i: int, j: int|
        0 <= i < vs.len() && 0 <= j < vs.len() && i != j && (#[trigger] vs[i]).active && (#[trigger] vs[j]).active
            ==> vs[i].key != vs[j].key
}

proof fn lemma_first_playing(vs: Seq<Voice>, key: u8)
    ensures
        match first_playing(vs, key) {
            Some(i) => 0 <= i < vs.len() && vs[i].active && vs[i].key == key && forall|j: int|
                0 <= j < i ==> !(vs[j].active && vs[j].key == key),
            None => forall|j: int| 0 <= j < vs.len() ==> !(vs[j].active && vs[j].key == key),
        },
    decreases vs.len(),
{
    if vs.len() > 0 {
        lemma_first_playing(vs.drop_last(), key);
        assert forall|j: int| 0 <= j < vs.len() - 1 implies vs[j] == vs.drop_last()[j] by {}
    }
}

proof fn lemma_first_free(vs: Seq<Voice>)
    ensures
        match first_free(vs) {
            Some(i) => 0 <= i < vs.len() && !vs[i].active && forall|j: int| 0 <= j < i ==> vs[j].active,
            None => forall|j: int| 0 <= j < vs.len() ==> vs[j].active,
        },
    decreases vs.len(),
{
    if vs.len() > 0 {
        lemma_first_free(vs.drop_last());
        assert forall|j: int| 0 <= j < vs.len() - 1 implies vs[j] == vs.drop_last()[j] by {}
    }
}

/// The bank of voices.
pub struct VoiceBank {
    voices: Vec<Voice>,
}

impl View for VoiceBank {
    type V = Seq<Voice>;

    closed spec fn view(&self) -> Seq<Voice> {
        self.voices@
    }
}

/// Where `key` plays, searching from the start.
fn find_playing(voices: &Vec<Voice>, key: u8) -> (r: Option<usize>)
    ensures
        match r {
            Some(i) => i < voices@.len() && first_playing(voices@, key) == Some(i as int),
            None => first_playing(voices@, key) is None,
        },
{
    let mut i: usize = 0;
    while i < voices.len()
        invariant
            i <= voices@.len(),
            first_playing(voices@.take(i as int), key) is None,
        decreases voices@.len() - i,
    {
        proof {
            assert(voices@.take(i + 1).drop_last() == voices@.take(i as int));
        }
        if voices[i].active && voices[i].key == key {
            proof {
                lemma_prefix_first_playing(voices@, i as int, key);
            }
            return Some(i);
        }
        i = i + 1;
    }
    assert(voices@.take(voices@.len() as int) == voices@);
    None
}

proof fn lemma_prefix_first_playing(vs: Seq<Voice>, i: int, key: u8)
    requires
        0 <= i < vs.len(),
        first_playing(vs.take(i), key) is None,
        vs[i].active && vs[i].key == key,
    ensures
        first_playing(vs, key) == Some(i),
{
    lemma_first_playing(vs, key);
    lemma_first_playing(vs.take(i), key);
    let f = first_playing(vs, key);
    match f {
        Some(k) => {
            if k < i {
                assert(vs.take(i)[k] == vs[k]);
            }
        },
        None => {},
    }
    lemma_first_playing(vs.take(i + 1), key);
    assert(vs.take(i + 1).drop_last() == vs.take(i));
    lemma_first_unique_playing(vs, i, key);
}

proof fn lemma_first_unique_playing(vs: Seq<Voice>, i: int, key: u8)
    requires
        0 <= i < vs.len(),
        vs[i].active && vs[i].key == key,
        forall|j: int| 0 <= j < i ==> !(vs[j].active && vs[j].key == key),
    ensures
        first_playing(vs, key) == Some(i),
    decreases vs.len(),
{
    if i < vs.len() - 1 {
        lemma_first_unique_playing(vs.drop_last(), i, key);
    } else {
        lemma_first_playing(vs.drop_last(), key);
    }
}

proof fn lemma_first_unique_free(vs: Seq<Voice>, i: int)
    requires
        0 <= i < vs.len(),
        !vs[i].active,
        forall|j: int| 0 <= j < i ==> vs[j].active,
    ensures
        first_free(vs) == Some(i),
    decreases vs.len(),
{
    if i < vs.len() - 1 {
        lemma_first_unique_free(vs.drop_last(), i);
    } else {
        lemma_first_free(vs.drop_last());
    }
}

/// The first silent voice.
fn find_free(voices: &Vec<Voice>) -> (r: Option<usize>)
    ensures
        match r {
            Some(i) => i < voices@.len() && first_free(voices@) == Some(i as int),
            None => first_free(voices@) is None,
        },
{
    let mut i: usize = 0;
    while i < voices.len()
        invariant
            i <= voices@.len(),
            forall|j: int| 0 <= j < i ==> voices@[j].active,
        decreases voices@.len() - i,
    {
        if !voices[i].active {
            proof {
                lemma_first_unique_free(voices@, i as int);
            }
            return Some(i);
        }
        i = i + 1;
    }
    proof {
        lemma_first_free(voices@);
    }
    None
}

impl VoiceBank {
    /// Sixteen voices and nothing else.
    pub closed spec fn wf(&self) -> bool {
        self.voices@.len() == MAX_VOICES
    }

    /// Sixteen silent voices.
    pub fn new() -> (r: Self)
        ensures
            r.wf(),
            r@ == Seq::new(MAX_VOICES as nat, |i: int| Voice { key: 0, phase_bits: 0, gain_bits: 0, active: false }),
    {
        let mut voices: Vec<Voice> = Vec::new();
        let mut i: usize = 0;
        while i < MAX_VOICES
            invariant
                i <= MAX_VOICES,
                voices@ == Seq::new(i as nat, |k: int| Voice { key: 0, phase_bits: 0, gain_bits: 0, active: false }),
            decreases MAX_VOICES - i,
        {
            voices.push(Voice { key: 0, phase_bits: 0, gain_bits: 0, active: false });
            i = i + 1;
            assert(voices@ =~= Seq::new(i as nat, |k: int| Voice { key: 0, phase_bits: 0, gain_bits: 0, active: false }));
        }
        VoiceBank { voices }
    }

    /// The voices.
    pub fn voices(&self) -> (r: &[Voice])
        ensures
            r@ == self@,
    {
        self.voices.as_slice()
    }

    /// Moves a voice's oscillator on.
    pub fn set_phase(&mut self, i: usize, phase_bits: u32)
        requires
            old(self).wf(),
            i < MAX_VOICES,
        ensures
            final(self).wf(),
            final(self)@ == old(self)@.update(i as int, Voice { phase_bits, ..old(self)@[i as int] }),
    {
        let v = self.voices[i];
        self.voices.set(i, Voice { phase_bits, ..v });
    }

    /// A note-on (see [`with_note_on`]).
    pub fn note_on(&mut self, key: u8, gain_bits: u32)
        requires
            old(self).wf(),
        ensures
            final(self).wf(),
            final(self)@ == with_note_on(old(self)@, key, gain_bits),
    {
        match find_playing(&self.voices, key) {
            Some(i) => {
                let v = self.voices[i];
                self.voices.set(i, Voice { gain_bits, ..v });
            },
            None => match find_free(&self.voices) {
                Some(j) => {
                    self.voices.set(j, Voice { key, phase_bits: 0, gain_bits, active: true });
                },
                None => {},
            },
        }
    }

    /// A note-off (see [`with_note_off`]).
    pub fn note_off(&mut self, key: u8)
        requires
            old(self).wf(),
        ensures
            final(self).wf(),
            final(self)@ == with_note_off(old(self)@, key),
    {
        match find_playing(&self.voices, key) {
            Some(i) => {
                let v = self.voices[i];
                self.voices.set(i, Voice { active: false, ..v });
            },
            None => {},
        }
    }

    /// Applies a queued event (see [`with_event`]); `gain_bits` is the gain
    /// a note-on gives, its velocity over 127.
    pub fn apply_event(&mut self, e: PluginMidiEvent, gain_bits: u32)
        requires
            old(self).wf(),
        ensures
            final(self).wf(),
            final(self)@ == with_event(old(self)@, e, gain_bits),
    {
        let status = e.status & 0xF0;
        if status == 0x90 && e.velocity > 0 {
            self.note_on(e.key, gain_bits);
        } else if status == 0x80 || (status == 0x90 && e.velocity == 0) {
            self.note_off(e.key);
        }
    }
}

/// Events never make two sounding voices play the same key.
pub proof fn law_one_voice_per_key(vs: Seq<Voice>, e: PluginMidiEvent, gain_bits: u32)
    requires
        keys_distinct(vs),
    ensures
        keys_distinct(with_event(vs, e, gain_bits)),
{
    lemma_first_playing(vs, e.key);
    lemma_first_free(vs);
}

/// After a note-off no voice plays the key, when no two voices played the same key.
pub proof fn law_note_off_silences(vs: Seq<Voice>, key: u8)
    requires
        keys_distinct(vs),
    ensures
        forall|j: int| 0 <= j < vs.len() ==> !(#[trigger] with_note_off(vs, key)[j]).active || with_note_off(vs, key)[j].key != key,
{
    lemma_first_playing(vs, key);
}

/// After a note-on the key sounds with the new gain, unless every voice was
/// busy with other keys.
pub proof fn law_note_on_sounds(vs: Seq<Voice>, key: u8, gain_bits: u32)
    ensures
        (first_playing(vs, key) is Some || first_free(vs) is Some) ==> exists|j: int|
            0 <= j < vs.len() && (#[trigger] with_note_on(vs, key, gain_bits)[j]).active
                && with_note_on(vs, key, gain_bits)[j].key == key && with_note_on(vs, key, gain_bits)[j].gain_bits
                == gain_bits,
        (first_playing(vs, key) is None && first_free(vs) is None) ==> with_note_on(vs, key, gain_bits) == vs,
{
    lemma_first_playing(vs, key);
    lemma_first_free(vs);
    match first_playing(vs, key) {
        Some(i) => {
            assert(with_note_on(vs, key, gain_bits)[i].active);
        },
        None => match first_free(vs) {
            Some(j) => {
                assert(with_note_on(vs, key, gain_bits)[j].active);
            },
            None => {},
        },
    }
}

} // verus!
