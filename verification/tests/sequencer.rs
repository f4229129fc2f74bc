use cplp::sequence::{MidiEvent, MidiSequence};
use cplp::sequencer::{MidiSequencer, NoteCommand};

/// The ticks the tempo makes between two times in seconds, as the player loop counts them.
fn delta_ticks(prev: f64, now: f64, tempo_bits: u32) -> u64 {
    let dt = now - prev;
    let ticks_per_sec = (f32::from_bits(tempo_bits) as f64 / 60.0) * 480.0;
    (dt * ticks_per_sec) as u64
}

/// One update at `now` seconds.
fn update(seq: &mut MidiSequencer, now: f64) -> Vec<NoteCommand> {
    let delta = match (seq.last_time_bits(), seq.tempo_bits()) {
        (Some(prev), Some(t)) => delta_ticks(f64::from_bits(prev), now, t),
        _ => 0,
    };
    seq.update(now.to_bits(), delta)
}

fn make_test_sequence() -> MidiSequence {
    MidiSequence {
        tempo_bpm_bits: 120.0f32.to_bits(),
        events: vec![
            MidiEvent { tick: 0, note: 60, velocity: 100, duration_ticks: 240 },
            MidiEvent { tick: 480, note: 62, velocity: 100, duration_ticks: 240 },
        ],
    }
}

#[test]
fn sequencer_starts_not_playing() {
    let seq = MidiSequencer::new();
    assert!(!seq.is_playing());
}

#[test]
fn sequencer_plays_after_set() {
    let mut seq = MidiSequencer::new();
    seq.set_sequence(make_test_sequence());
    assert!(seq.is_playing());
}

#[test]
fn sequencer_stop_command() {
    let mut seq = MidiSequencer::new();
    seq.set_sequence(make_test_sequence());
    seq.set_sequence(MidiSequence::new(0.0f32.to_bits()));
    assert!(!seq.is_playing());
}

#[test]
fn sequencer_emits_note_on_at_start() {
    let mut seq = MidiSequencer::new();
    seq.set_sequence(make_test_sequence());
    let cmds = update(&mut seq, 0.0);
    assert!(cmds.is_empty());
    let cmds = update(&mut seq, 0.01);
    assert!(cmds.iter().any(|c| matches!(c, NoteCommand::NoteOn { note: 60, .. })));
}

#[test]
fn sequencer_emits_note_off() {
    let mut seq = MidiSequencer::new();
    seq.set_sequence(make_test_sequence());
    update(&mut seq, 0.0);
    update(&mut seq, 0.01);
    let cmds = update(&mut seq, 0.26);
    assert!(cmds.iter().any(|c| matches!(c, NoteCommand::NoteOff { note: 60 })));
}

#[test]
fn sequencer_manual_stop() {
    let mut seq = MidiSequencer::new();
    seq.set_sequence(make_test_sequence());
    seq.stop();
    assert!(!seq.is_playing());
}

#[test]
fn negative_zero_tempo_also_stops() {
    let mut seq = MidiSequencer::new();
    seq.set_sequence(make_test_sequence());
    seq.set_sequence(MidiSequence::new((-0.0f32).to_bits()));
    assert!(!seq.is_playing());
}

#[test]
fn looping_wraps_to_the_start() {
    let mut seq = MidiSequencer::new();
    seq.set_sequence(make_test_sequence());
    seq.update(0, 0);
    // The sequence lasts 720 ticks; from tick 0, 700 ticks then 40 more.
    let first = seq.update(1, 700);
    assert_eq!(
        first,
        vec![
            NoteCommand::NoteOn { note: 60, velocity: 100 },
            NoteCommand::NoteOff { note: 60 },
            NoteCommand::NoteOn { note: 62, velocity: 100 },
        ]
    );
    // The window [700, 740) wraps: it covers [700, 720) and [0, 20).
    let second = seq.update(2, 40);
    assert_eq!(second, vec![NoteCommand::NoteOn { note: 60, velocity: 100 }, NoteCommand::NoteOff { note: 62 }]);
    assert!(seq.is_playing());
}

#[test]
fn one_shot_stops_at_the_end() {
    let mut seq = MidiSequencer::new();
    seq.set_looping(false);
    assert!(!seq.is_looping());
    seq.set_sequence(make_test_sequence());
    seq.update(0, 0);
    let cmds = seq.update(1, 800);
    assert_eq!(cmds.len(), 4);
    assert!(!seq.is_playing());
    assert!(seq.update(2, 10).is_empty());
}

#[test]
fn updates_play_only_the_notes_of_the_sequence() {
    let mut seq = MidiSequencer::new();
    let s = make_test_sequence();
    seq.set_sequence(s.clone());
    let mut all = Vec::new();
    for k in 0..40 {
        all.extend(update(&mut seq, k as f64 * 0.1));
    }
    assert!(!all.is_empty());
    for c in all {
        match c {
            NoteCommand::NoteOn { note, velocity } => {
                assert!(s.events.iter().any(|e| e.note == note && e.velocity == velocity))
            }
            NoteCommand::NoteOff { note } => assert!(s.events.iter().any(|e| e.note == note)),
            NoteCommand::Stop => panic!("an update never stops"),
        }
    }
}
