use cplp::llm::{
    auth_header, check_notes, embedded_json, fenced_json, has_reversed_braces, trimmed_answer, AuthMethod, NoteCheckError,
};
use cplp::sequence::MidiEvent;

#[test]
fn extract_json_from_code_block() {
    let text = "Here's a blues sequence:\n```json\n{\"tempo_bpm\": 120.0, \"events\": [{\"tick\": 0, \"note\": 60, \"velocity\": 100, \"duration_ticks\": 480}]}\n```\nThis plays a C note.";
    assert_eq!(
        fenced_json(text).as_deref(),
        Some("{\"tempo_bpm\": 120.0, \"events\": [{\"tick\": 0, \"note\": 60, \"velocity\": 100, \"duration_ticks\": 480}]}")
    );
}

#[test]
fn extract_json_raw() {
    let text = "  {\"tempo_bpm\": 90.0, \"events\": []}\n";
    assert_eq!(fenced_json(text), None);
    assert_eq!(trimmed_answer(text), "{\"tempo_bpm\": 90.0, \"events\": []}");
}

#[test]
fn extract_json_embedded() {
    let text = "Sure! Here's the sequence: {\"tempo_bpm\": 100.0, \"events\": [{\"tick\": 0}]} Let me know if you want changes.";
    assert_eq!(fenced_json(text), None);
    assert_eq!(embedded_json(text).as_deref(), Some("{\"tempo_bpm\": 100.0, \"events\": [{\"tick\": 0}]}"));
}

#[test]
fn extract_json_no_json() {
    let text = "I can't generate music right now.";
    assert_eq!(fenced_json(text), None);
    assert_eq!(embedded_json(text), None);
}

#[test]
fn extract_json_multiple_events() {
    let text = "```json\n{\n  \"events\": [1, 2]\n}\n```";
    assert_eq!(fenced_json(text).as_deref(), Some("{\n  \"events\": [1, 2]\n}"));
}

#[test]
fn unterminated_fence_gives_no_block() {
    assert_eq!(fenced_json("```json {\"a\": 1}"), None);
    assert_eq!(fenced_json("```json```"), Some(String::new()));
}

#[test]
fn auth_headers() {
    assert_eq!(auth_header(&AuthMethod::ApiKey("k".into())), ("x-api-key".to_string(), "k".to_string()));
    assert_eq!(auth_header(&AuthMethod::Bearer("t".into())), ("authorization".to_string(), "Bearer t".to_string()));
}

#[test]
fn note_checks_find_the_first_problem() {
    let ok = MidiEvent { tick: 0, note: 60, velocity: 100, duration_ticks: 10 };
    assert_eq!(check_notes(&[ok, ok]), Ok(()));
    let bad_note = MidiEvent { note: 128, velocity: 200, ..ok };
    let bad_vel = MidiEvent { velocity: 130, ..ok };
    assert_eq!(check_notes(&[ok, bad_vel, bad_note]), Err(NoteCheckError::InvalidVelocity(130)));
    assert_eq!(check_notes(&[bad_note]), Err(NoteCheckError::InvalidNote(128)));
    assert_eq!(NoteCheckError::InvalidNote(128).message(), "無効なノート番号: 128 (0-127)");
    assert_eq!(NoteCheckError::InvalidVelocity(130).message(), "無効なベロシティ: 130 (0-127)");
}

#[test]
fn brace_order_is_checked_as_the_cut_needs() {
    assert!(!has_reversed_braces("}{"));
    assert_eq!(embedded_json("}{").as_deref(), Some(""));
    assert!(has_reversed_braces("} x {"));
    assert!(!has_reversed_braces("no braces"));
    assert!(!has_reversed_braces("{ only"));
    assert!(!has_reversed_braces("a {b} c"));
}
