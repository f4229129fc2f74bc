use cplp::parser::{note_name_to_midi, parse_command, scale_intervals, ParseError};
use cplp::sequence::{MidiEvent, MidiSequence};

/// Reads a command through both steps, converting its tempo texts as `str::parse::<f32>` does.
fn parse(text: &str) -> Result<MidiSequence, ParseError> {
    let p = parse_command(text)?;
    let values: Vec<Option<u32>> =
        p.tempo_texts().iter().map(|t| t.parse::<f32>().ok().map(f32::to_bits)).collect();
    p.into_sequence(&values)
}

fn tempo(seq: &MidiSequence) -> f32 {
    f32::from_bits(seq.tempo_bpm_bits)
}

#[test]
fn parse_stop() {
    let seq = parse("stop").unwrap();
    assert_eq!(tempo(&seq), 0.0);
    assert!(seq.events.is_empty());
}

#[test]
fn parse_tempo_change() {
    let seq = parse("tempo 140").unwrap();
    assert!((tempo(&seq) - 140.0).abs() < f32::EPSILON);
    assert!(seq.events.is_empty());
}

#[test]
fn parse_c_major_scale() {
    let seq = parse("C major 120bpm").unwrap();
    assert!((tempo(&seq) - 120.0).abs() < f32::EPSILON);
    assert!(!seq.events.is_empty());
    assert_eq!(seq.events[0].note, 60);
    assert_eq!(seq.events[1].note, 62);
}

#[test]
fn parse_default_bpm_is_122() {
    let seq = parse("A minor").unwrap();
    assert!((tempo(&seq) - 122.0).abs() < f32::EPSILON);
}

#[test]
fn parse_a_minor_pentatonic() {
    let seq = parse("A pentatonic 90bpm 4bars").unwrap();
    assert!((tempo(&seq) - 90.0).abs() < f32::EPSILON);
    assert_eq!(seq.events[0].note, 69);
}

#[test]
fn parse_unknown_returns_error() {
    assert!(parse("").is_err());
    assert!(parse("dance salsa").is_err());
}

#[test]
fn note_name_to_midi_basics() {
    assert_eq!(note_name_to_midi("C").unwrap(), 60);
    assert_eq!(note_name_to_midi("A").unwrap(), 69);
    assert_eq!(note_name_to_midi("G").unwrap(), 67);
}

#[test]
fn note_names_ignore_case_and_refuse_others() {
    assert_eq!(note_name_to_midi("b").unwrap(), 71);
    assert_eq!(note_name_to_midi("H"), Err(ParseError::UnknownNote("H".to_string())));
}

#[test]
fn scale_intervals_known_and_unknown() {
    assert_eq!(scale_intervals("major").unwrap(), vec![0, 2, 4, 5, 7, 9, 11, 12]);
    assert_eq!(scale_intervals("Minor").unwrap(), vec![0, 2, 3, 5, 7, 8, 10, 12]);
    assert_eq!(scale_intervals("pentatonic").unwrap(), vec![0, 2, 4, 7, 9, 12]);
    assert_eq!(scale_intervals("blues").unwrap(), vec![0, 3, 5, 6, 7, 10, 12]);
    assert_eq!(scale_intervals("dorian"), Err(ParseError::UnknownScale("dorian".to_string())));
}

#[test]
fn each_error_kind_and_its_message() {
    assert_eq!(parse("   "), Err(ParseError::EmptyInput));
    assert_eq!(ParseError::EmptyInput.message(), "空の入力");
    assert_eq!(parse("X major"), Err(ParseError::UnknownNote("x".to_string())));
    assert_eq!(parse("C dorian"), Err(ParseError::UnknownScale("dorian".to_string())));
    assert_eq!(parse("hello"), Err(ParseError::UnknownCommand("hello".to_string())));
    assert_eq!(parse("tempo fast"), Err(ParseError::InvalidTempo("fast".to_string())));
    assert_eq!(parse("C major fastbpm"), Err(ParseError::InvalidTempo("fastbpm".to_string())));
    assert_eq!(parse("C major xbars"), Err(ParseError::UnknownCommand("xbars".to_string())));
    assert_eq!(parse("C major loud"), Err(ParseError::UnknownCommand("C major loud".to_string())));
    assert_eq!(ParseError::InvalidTempo("fast".to_string()).message(), "テンポの解析に失敗: fast");
    assert_eq!(ParseError::UnknownNote("x".to_string()).message(), "不明なノート名: x");
}

#[test]
fn scale_goes_up_then_down() {
    let seq = parse("A minor 90bpm").unwrap();
    let notes: Vec<u8> = seq.events.iter().map(|e| e.note).collect();
    assert_eq!(notes, vec![69, 71, 72, 74, 76, 77, 79, 81, 79, 77, 76, 74, 72, 71, 69]);
    // Two bars of 1920 ticks share fifteen notes evenly.
    let step = 2 * 1920 / 15;
    assert_eq!(seq.events[1].tick, step);
    assert_eq!(seq.events[0].duration_ticks, step);
    assert_eq!(seq.events[0].velocity, 100);
}

#[test]
fn later_options_override_earlier_ones() {
    let seq = parse("C major 100bpm 140bpm 1bars").unwrap();
    assert_eq!(tempo(&seq), 140.0);
    let step = 1920 / 15;
    assert_eq!(seq.events[1].tick, step);
}

#[test]
fn empty_sequence_duration() {
    let seq = MidiSequence::new(122.0f32.to_bits());
    assert_eq!(seq.duration_ticks(), 0);
}

#[test]
fn sequence_duration_tracks_last_note() {
    let seq = MidiSequence {
        tempo_bpm_bits: 122.0f32.to_bits(),
        events: vec![
            MidiEvent { tick: 0, note: 60, velocity: 100, duration_ticks: 480 },
            MidiEvent { tick: 480, note: 62, velocity: 100, duration_ticks: 960 },
        ],
    };
    assert_eq!(seq.duration_ticks(), 1440);
}

#[test]
fn parse_notes_given_directly() {
    let seq = parse("C4 E4 G4 120bpm").unwrap();
    assert!((tempo(&seq) - 120.0).abs() < f32::EPSILON);
    let notes: Vec<u8> = seq.events.iter().map(|e| e.note).collect();
    assert_eq!(notes, vec![60, 64, 67]);
    assert_eq!(seq.events[1].tick, seq.events[0].duration_ticks);
    assert_eq!(seq.events[0].duration_ticks, 4 * 480 * 2 / 3);
}

#[test]
fn parse_notes_with_sharps_octaves_and_defaults() {
    let seq = parse("c#4 a3 G9").unwrap();
    assert!((tempo(&seq) - 122.0).abs() < f32::EPSILON);
    let notes: Vec<u8> = seq.events.iter().map(|e| e.note).collect();
    assert_eq!(notes, vec![61, 57, 127]);
    let seq = parse("C4 E4 1bars").unwrap();
    assert_eq!(seq.events[1].tick, 960);
}

#[test]
fn parse_notes_rejects_other_words_and_bad_notes() {
    assert_eq!(parse("C4 major"), Err(ParseError::UnknownCommand("C4 major".to_string())));
    assert_eq!(parse("A9 C4"), Err(ParseError::UnknownNote("a9".to_string())));
    assert_eq!(parse("H4 C4"), Err(ParseError::UnknownNote("h4".to_string())));
    assert_eq!(parse("C4 E4 fastbpm"), Err(ParseError::InvalidTempo("fastbpm".to_string())));
}
