//! Real-time playback of a MIDI sequence: each call hands over the note-on and
//! note-off commands whose ticks fall in the time window that has passed.
use vstd::prelude::*;
use crate::sequence::{end_tick, events_fit, is_zero_tempo, lemma_max_end_fits, max_end, MidiEvent, MidiSequence, MidiSequenceView};

verus! {

/// A note command for the audio thread.
#[derive(Debug, Clone, Copy, PartialEq, Eq, Structural)]
pub enum NoteCommand {
    NoteOn { note: u8, velocity: u8 },
    NoteOff { note: u8 },
    Stop,
}

/// Whether tick `t` lies in the window that starts at `start` and spans up to
/// `end`; when the window runs past the end of a looping sequence of length
/// `len`, it also covers `[0, end % len)`.
pub open spec fn in_window(t: int, start: int, end: int, len: int, wraps: bool) -> bool {
    if wraps {
        t >= start || t < end % len
    } else {
        start <= t && t < end
    }
}

/// The commands of one note: its note-on if its start is in the window, then
/// its note-off if its end is.
pub open spec fn note_commands(e: MidiEvent, start: int, end: int, len: int, wraps: bool) -> Seq<NoteCommand> {
    let on = if in_window(e.tick as int, start, end, len, wraps) {
        seq![NoteCommand::NoteOn { note: e.note, velocity: e.velocity }]
    } else {
        Seq::empty()
    };
    let off = if in_window(end_tick(e), start, end, len, wraps) {
        seq![NoteCommand::NoteOff { note: e.note }]
    } else {
        Seq::empty()
    };
    on + off
}

/// The commands of all notes, in the order of the notes.
pub open spec fn window_commands(events: Seq<MidiEvent>, start: int, end: int, len: int, wraps: bool) -> Seq<NoteCommand>
    decreases events.len(),
{
    if events.len() == 0 {
        Seq::empty()
    } else {
        window_commands(events.drop_last(), start, end, len, wraps) + note_commands(
            events.last(),
            start,
            end,
            len,
            wraps,
        )
    }
}

/// Schedules the notes of a sequence against elapsed ticks.
pub struct MidiSequencer {
    sequence: Option<MidiSequence>,
    current_tick: u64,
    last_time_bits: Option<u64>,
    looping: bool,
}

/// The state of a sequencer: the sequence it plays, its position in ticks, the
/// `f64` bits of the time of the previous update, and whether it loops.
pub struct MidiSequencerView {
    pub sequence: Option<MidiSequenceView>,
    pub current_tick: u64,
    pub last_time_bits: Option<u64>,
    pub looping: bool,
}

/// The value of an optional sequence.
pub open spec fn opt_view(s: Option<MidiSequence>) -> Option<MidiSequenceView> {
    match s {
        Some(q) => Some(q@),
        None => None,
    }
}

impl View for MidiSequencer {
    type V = MidiSequencerView;

    closed spec fn view(&self) -> MidiSequencerView {
        MidiSequencerView {
            sequence: opt_view(self.sequence),
            current_tick: self.current_tick,
            last_time_bits: self.last_time_bits,
            looping: self.looping,
        }
    }
}

/// The state after `delta` ticks have passed in state `s` (which holds a
/// sequence and has a previous time), and the commands handed over.
pub open spec fn advanced(s: MidiSequencerView, q: MidiSequenceView, now_bits: u64, delta: int) -> (MidiSequencerView, Seq<NoteCommand>) {
    let len = max_end(q.events);
    let cur = s.current_tick + delta;
    if len == 0 {
        (MidiSequencerView { current_tick: cur as u64, last_time_bits: Some(now_bits), ..s }, Seq::empty())
    } else {
        let start = if s.looping { (s.current_tick as int) % len } else { s.current_tick as int };
        let end = start + delta;
        let wraps = s.looping && end > len;
        let cmds = window_commands(q.events, start, end, len, wraps);
        let next_tick = if s.looping && cur >= len { cur % len } else { cur };
        let next_seq = if !s.looping && cur >= len { None } else { s.sequence };
        (MidiSequencerView { sequence: next_seq, current_tick: next_tick as u64, last_time_bits: Some(now_bits), looping: s.looping }, cmds)
    }
}

/// The state after a new sequence is set: it plays from its beginning, or,
/// when its tempo is zero, playback stops.
pub open spec fn with_sequence(s: MidiSequencerView, q: MidiSequenceView) -> MidiSequencerView {
    if is_zero_tempo(q.tempo_bpm_bits) {
        MidiSequencerView { sequence: None, current_tick: 0, ..s }
    } else {
        MidiSequencerView { sequence: Some(q), current_tick: 0, last_time_bits: None, looping: s.looping }
    }
}

impl MidiSequencer {
    /// A looping sequencer with nothing to play.
    pub fn new() -> (r: Self)
        ensures
            r@.sequence is None,
            r@.current_tick == 0,
            r@.last_time_bits is None,
            r@.looping,
    {
        MidiSequencer { sequence: None, current_tick: 0, last_time_bits: None, looping: true }
    }

    /// Starts playing a new sequence from its beginning. A sequence whose
    /// tempo is zero stops playback instead.
    pub fn set_sequence(&mut self, seq: MidiSequence)
        ensures
            final(self)@ == with_sequence(old(self)@, seq@),
    {
        if seq.tempo_bpm_bits == 0 || seq.tempo_bpm_bits == 0x8000_0000 {
            self.sequence = None;
            self.current_tick = 0;
            return;
        }
        self.sequence = Some(seq);
        self.current_tick = 0;
        self.last_time_bits = None;
    }

    /// Stops playback.
    pub fn stop(&mut self)
        ensures
            final(self)@ == (MidiSequencerView { sequence: None, current_tick: 0, ..old(self)@ }),
    {
        self.sequence = None;
        self.current_tick = 0;
    }

    /// Makes playback loop, or play once and stop at the end.
    pub fn set_looping(&mut self, looping: bool)
        ensures
            final(self)@ == (MidiSequencerView { looping, ..old(self)@ }),
    {
        self.looping = looping;
    }

    /// Whether playback loops.
    pub fn is_looping(&self) -> (r: bool)
        ensures
            r == self@.looping,
    {
        self.looping
    }

    /// Whether a sequence is playing.
    pub fn is_playing(&self) -> (r: bool)
        ensures
            r == self@.sequence is Some,
    {
        self.sequence.is_some()
    }

    /// The position of playback, in ticks.
    pub fn current_tick(&self) -> (r: u64)
        ensures
            r == self@.current_tick,
    {
        self.current_tick
    }

    /// The `f64` bits of the time of the previous update, if any.
    pub fn last_time_bits(&self) -> (r: Option<u64>)
        ensures
            r == self@.last_time_bits,
    {
        self.last_time_bits
    }

    /// The tempo bits of the sequence being played, if any.
    pub fn tempo_bits(&self) -> (r: Option<u32>)
        ensures
            r == (match self@.sequence {
                Some(q) => Some(q.tempo_bpm_bits),
                None => None,
            }),
    {
        match &self.sequence {
            Some(s) => Some(s.tempo_bpm_bits),
            None => None,
        }
    }
}


proof fn lemma_window_step(events: Seq<MidiEvent>, i: int, start: int, end: int, len: int, wraps: bool)
    requires
        0 <= i < events.len(),
    ensures
        window_commands(events.take(i + 1), start, end, len, wraps) == window_commands(
            events.take(i),
            start,
            end,
            len,
            wraps,
        ) + note_commands(events[i], start, end, len, wraps),
{
    assert(events.take(i + 1).drop_last() == events.take(i));
    assert(events.take(i + 1).last() == events[i]);
}

impl MidiSequencer {
    /// One update of playback at time `now_bits` (the `f64` bits of the
    /// current time in seconds). `delta_ticks` is the number of ticks that the
    /// tempo makes of the time passed since the previous update; it is unused
    /// when nothing is playing or when this is the first update after a new
    /// sequence, which only records the time.
    pub fn update(&mut self, now_bits: u64, delta_ticks: u64) -> (r: Vec<NoteCommand>)
        requires
            old(self)@.sequence matches Some(q) ==> events_fit(q.events),
            old(self)@.current_tick + delta_ticks <= u64::MAX,
        ensures
            match old(self)@.sequence {
                None => final(self)@ == old(self)@ && r@.len() == 0,
                Some(q) => match old(self)@.last_time_bits {
                    None => final(self)@ == (MidiSequencerView { last_time_bits: Some(now_bits), ..old(self)@ })
                        && r@.len() == 0,
                    Some(_) => (final(self)@, r@) == advanced(old(self)@, q, now_bits, delta_ticks as int),
                },
            },
    {
        if self.sequence.is_none() {
            return Vec::new();
        }
        if self.last_time_bits.is_none() {
            self.last_time_bits = Some(now_bits);
            return Vec::new();
        }
        self.last_time_bits = Some(now_bits);
        let looping = self.looping;
        let prev_tick = self.current_tick;
        self.current_tick = self.current_tick + delta_ticks;
        let duration = match &self.sequence {
            Some(seq) => {
                proof {
                    lemma_max_end_fits(seq.events@);
                }
                seq.duration_ticks()
            },
            None => 0,
        };
        if duration == 0 {
            return Vec::new();
        }
        let effective_prev: u64 = if looping {
            prev_tick % duration
        } else {
            prev_tick
        };
        proof {
            vstd::arithmetic::div_mod::lemma_mod_decreases(prev_tick as nat, duration as nat);
        }
        let window_end: u64 = effective_prev + delta_ticks;
        let wraps = looping && window_end > duration;
        let mut commands: Vec<NoteCommand> = Vec::new();
        match &self.sequence {
            Some(seq) => {
                let ghost evs = seq.events@;
                let mut i: usize = 0;
                while i < seq.events.len()
                    invariant
                        evs == seq.events@,
                        i <= evs.len(),
                        events_fit(evs),
                        duration > 0,
                        commands@ == window_commands(
                            evs.take(i as int),
                            effective_prev as int,
                            window_end as int,
                            duration as int,
                            wraps,
                        ),
                    decreases evs.len() - i,
                {
                    proof {
                        lemma_window_step(
                            evs,
                            i as int,
                            effective_prev as int,
                            window_end as int,
                            duration as int,
                            wraps,
                        );
                    }
                    let event = seq.events[i];
                    let on_tick = event.tick;
                    let in_win = if wraps {
                        on_tick >= effective_prev || on_tick < window_end % duration
                    } else {
                        on_tick >= effective_prev && on_tick < window_end
                    };
                    let ghost before = commands@;
                    if in_win {
                        commands.push(NoteCommand::NoteOn { note: event.note, velocity: event.velocity });
                    }
                    let ghost mid = commands@;
                    assert(end_tick(evs[i as int]) <= u64::MAX);
                    let off_tick = event.tick + event.duration_ticks;
                    let off_in_win = if wraps {
                        off_tick >= effective_prev || off_tick < window_end % duration
                    } else {
                        off_tick >= effective_prev && off_tick < window_end
                    };
                    if off_in_win {
                        commands.push(NoteCommand::NoteOff { note: event.note });
                    }
                    assert(commands@ == before + note_commands(
                        evs[i as int],
                        effective_prev as int,
                        window_end as int,
                        duration as int,
                        wraps,
                    ));
                    i = i + 1;
                }
                assert(evs.take(evs.len() as int) == evs);
            },
            None => {},
        }
        if looping && self.current_tick >= duration {
            self.current_tick = self.current_tick % duration;
        }
        if !looping && self.current_tick >= duration {
            self.sequence = None;
        }
        commands
    }
}


/// A looping sequencer's position always stays inside its sequence.
pub proof fn law_looping_position_stays_inside(s: MidiSequencerView, q: MidiSequenceView, now_bits: u64, delta: int)
    requires
        s.looping,
        max_end(q.events) > 0,
        0 <= delta,
        s.current_tick + delta <= u64::MAX,
    ensures
        advanced(s, q, now_bits, delta).0.current_tick < max_end(q.events),
        advanced(s, q, now_bits, delta).0.sequence == s.sequence,
{
    let len = max_end(q.events);
    let cur = s.current_tick + delta;
    if cur >= len {
        assert(cur % len < len);
    }
}

/// A looping sequencer keeps time: after an update its position is the old
/// position plus the ticks that passed, wrapped around the sequence's length
/// (the overshoot past the end is kept, not dropped), so the windows of
/// consecutive updates follow one another without overlap or gap.
pub proof fn law_looping_position_keeps_time(s: MidiSequencerView, q: MidiSequenceView, now_bits: u64, delta: int)
    requires
        s.looping,
        max_end(q.events) > 0,
        0 <= delta,
        s.current_tick + delta <= u64::MAX,
    ensures
        advanced(s, q, now_bits, delta).0.current_tick == (s.current_tick + delta) % max_end(q.events),
        advanced(s, q, now_bits, delta).0.current_tick as int % max_end(q.events) == (s.current_tick + delta)
            % max_end(q.events),
{
    let len = max_end(q.events);
    let cur = s.current_tick + delta;
    if cur < len {
        assert(cur % len == cur) by (nonlinear_arith)
            requires
                0 <= cur < len,
        ;
    } else {
        assert((cur % len) % len == cur % len) by (nonlinear_arith)
            requires
                len > 0,
        ;
    }
}

/// A sequence that does not loop plays once: it is dropped exactly when the
/// position reaches its end.
pub proof fn law_one_shot_ends_at_its_end(s: MidiSequencerView, q: MidiSequenceView, now_bits: u64, delta: int)
    requires
        !s.looping,
        s.sequence is Some,
        max_end(q.events) > 0,
        0 <= delta,
    ensures
        advanced(s, q, now_bits, delta).0.sequence is None <==> s.current_tick + delta >= max_end(q.events),
{
}

/// Whether a command plays a note of the events: a note-on with the note and
/// velocity of one of them, or a note-off of one of their notes. A stop is
/// none.
pub open spec fn plays_note_of(c: NoteCommand, events: Seq<MidiEvent>) -> bool {
    match c {
        NoteCommand::NoteOn { note, velocity } => exists|k: int|
            0 <= k < events.len() && #[trigger] events[k].note == note && events[k].velocity == velocity,
        NoteCommand::NoteOff { note } => exists|k: int| 0 <= k < events.len() && #[trigger] events[k].note == note,
        NoteCommand::Stop => false,
    }
}

proof fn lemma_window_plays_notes(events: Seq<MidiEvent>, start: int, end: int, len: int, wraps: bool)
    ensures
        forall|i: int| 0 <= i < window_commands(events, start, end, len, wraps).len() ==> plays_note_of(
            #[trigger] window_commands(events, start, end, len, wraps)[i],
            events,
        ),
    decreases events.len(),
{
    if events.len() > 0 {
        let front = events.drop_last();
        let last = events.last();
        lemma_window_plays_notes(front, start, end, len, wraps);
        let w = window_commands(front, start, end, len, wraps);
        let n = note_commands(last, start, end, len, wraps);
        assert forall|i: int| 0 <= i < (w + n).len() implies plays_note_of(#[trigger] (w + n)[i], events) by {
            if i < w.len() {
                let c = w[i];
                assert(plays_note_of(c, front));
                match c {
                    NoteCommand::NoteOn { note, velocity } => {
                        let k = choose|k: int| 0 <= k < front.len() && #[trigger] front[k].note == note && front[k].velocity == velocity;
                        assert(events[k] == front[k]);
                    },
                    NoteCommand::NoteOff { note } => {
                        let k = choose|k: int| 0 <= k < front.len() && #[trigger] front[k].note == note;
                        assert(events[k] == front[k]);
                    },
                    NoteCommand::Stop => {},
                }
            } else {
                let k = events.len() - 1;
                assert(events[k] == last);
            }
        }
    }
}

/// Playback only plays the notes of the sequence it holds: every command an
/// update hands over is a note-on with the note and velocity of one of the
/// sequence's events, or a note-off of one of its notes, and never a stop.
/// An update keeps the sequence or drops it, so over any run of updates
/// between two `set_sequence` calls the commands come from that sequence.
pub proof fn law_updates_play_only_the_sequence(s: MidiSequencerView, q: MidiSequenceView, now_bits: u64, delta: int)
    ensures
        forall|i: int| 0 <= i < advanced(s, q, now_bits, delta).1.len() ==> plays_note_of(
            #[trigger] advanced(s, q, now_bits, delta).1[i],
            q.events,
        ),
        advanced(s, q, now_bits, delta).0.sequence == s.sequence || advanced(s, q, now_bits, delta).0.sequence
            is None,
{
    let len = max_end(q.events);
    if len != 0 {
        let start = if s.looping { (s.current_tick as int) % len } else { s.current_tick as int };
        let end = start + delta;
        let wraps = s.looping && end > len;
        lemma_window_plays_notes(q.events, start, end, len, wraps);
    }
}

} // verus!
