//! MIDI sequences: timed note events with a tempo, as produced by the text
//! command parser and played back by the sequencer.
use vstd::prelude::*;

verus! {

/// Tick resolution: ticks per quarter note.
pub const TICKS_PER_QUARTER: u64 = 480;

/// One timed note.
#[derive(Debug, Clone, Copy, PartialEq, Eq, Structural)]
pub struct MidiEvent {
    /// Start time in ticks (a quarter note is 480 ticks).
    pub tick: u64,
    /// MIDI note number (0-127).
    pub note: u8,
    /// Velocity (0-127).
    pub velocity: u8,
    /// Length of the note in ticks.
    pub duration_ticks: u64,
}

/// A tempo and a list of notes.
///
/// The tempo is held as the IEEE-754 bit pattern of the `f32` beats per
/// minute (`f32::to_bits`); the library only ever tests it for zero.
#[derive(Debug, Clone, PartialEq, Eq)]
pub struct MidiSequence {
    pub tempo_bpm_bits: u32,
    pub events: Vec<MidiEvent>,
}

/// The tick at which a note ends (its note-off time).
pub open spec fn end_tick(e: MidiEvent) -> int {
    e.tick + e.duration_ticks
}

/// Every note ends at a tick that a `u64` can hold.
pub open spec fn events_fit(events: Seq<MidiEvent>) -> bool {
    forall|i: int| 0 <= i < events.len() ==> end_tick(#[trigger] events[i]) <= u64::MAX
}

/// The latest note end of the events, 0 when there are none.
pub open spec fn max_end(events: Seq<MidiEvent>) -> int
    decreases events.len(),
{
    if events.len() == 0 {
        0
    } else {
        let rest = max_end(events.drop_last());
        let e = end_tick(events.last());
        if e > rest {
            e
        } else {
            rest
        }
    }
}

/// `f32` bit patterns of `0.0` and `-0.0`: the tempo that means "stop".
pub open spec fn is_zero_tempo(bits: u32) -> bool {
    bits == 0 || bits == 0x8000_0000
}

proof fn lemma_max_end_bounds(events: Seq<MidiEvent>)
    ensures
        forall|i: int| 0 <= i < events.len() ==> end_tick(#[trigger] events[i]) <= max_end(events),
        max_end(events) >= 0,
        events.len() > 0 ==> exists|i: int| 0 <= i < events.len() && end_tick(#[trigger] events[i]) == max_end(events),
    decreases events.len(),
{
    if events.len() > 0 {
        let rest = events.drop_last();
        lemma_max_end_bounds(rest);
        assert forall|i: int| 0 <= i < events.len() implies end_tick(#[trigger] events[i]) <= max_end(events) by {
            if i < events.len() - 1 {
                assert(events[i] == rest[i]);
            }
        }
        if end_tick(events.last()) > max_end(rest) || rest.len() == 0 {
            assert(end_tick(events[events.len() - 1]) == max_end(events));
        } else {
            let j = choose|j: int| 0 <= j < rest.len() && end_tick(#[trigger] rest[j]) == max_end(rest);
            assert(events[j] == rest[j]);
        }
    }
}

/// Under `events_fit`, the latest note end fits in a `u64`.
pub proof fn lemma_max_end_fits(events: Seq<MidiEvent>)
    requires
        events_fit(events),
    ensures
        0 <= max_end(events) <= u64::MAX,
{
    lemma_max_end_bounds(events);
    if events.len() > 0 {
        let j = choose|j: int| 0 <= j < events.len() && end_tick(#[trigger] events[j]) == max_end(events);
    }
}

/// The mathematical value of a sequence: its tempo bits and its notes.
pub struct MidiSequenceView {
    pub tempo_bpm_bits: u32,
    pub events: Seq<MidiEvent>,
}

impl View for MidiSequence {
    type V = MidiSequenceView;

    open spec fn view(&self) -> MidiSequenceView {
        MidiSequenceView { tempo_bpm_bits: self.tempo_bpm_bits, events: self.events@ }
    }
}

impl MidiSequence {
    /// A sequence with the given tempo and no notes.
    pub fn new(tempo_bpm_bits: u32) -> (r: Self)
        ensures
            r.tempo_bpm_bits == tempo_bpm_bits,
            r.events@.len() == 0,
    {
        MidiSequence { tempo_bpm_bits, events: Vec::new() }
    }

    /// The tick at which the last note ends (0 for a sequence without notes).
    pub fn duration_ticks(&self) -> (r: u64)
        requires
            events_fit(self.events@),
        ensures
            r == max_end(self.events@),
    {
        let mut best: u64 = 0;
        let mut i: usize = 0;
        while i < self.events.len()
            invariant
                i <= self.events@.len(),
                events_fit(self.events@),
                best == max_end(self.events@.take(i as int)),
            decreases self.events@.len() - i,
        {
            let e = self.events[i];
            assert(end_tick(self.events@[i as int]) <= u64::MAX);
            let end = e.tick + e.duration_ticks;
            assert(self.events@.take(i + 1).drop_last() == self.events@.take(i as int));
            if end > best {
                best = end;
            }
            i = i + 1;
        }
        assert(self.events@.take(self.events@.len() as int) == self.events@);
        best
    }
}

} // verus!
