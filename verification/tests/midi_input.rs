use cplp::midi_input::{
    forward_midi_event, handle_midi_message, midi_event_channel, note_channel, plugin_note, port_index_by_name,
    MidiDispatch,
    PluginMidiEvent, PluginNote,
};
use cplp::module::MidiEvent;

#[test]
fn handle_note_on_calls_note_on() {
    let (mut ctrl, mut recv) = note_channel(16);
    let message = [0x90, 60, 100];
    handle_midi_message(&message, &mut ctrl);
    assert_eq!(recv.try_recv(), Some(PluginMidiEvent { status: 0x90, key: 60, velocity: 100 }));
    assert_eq!(recv.try_recv(), None);
}

#[test]
fn handle_note_on_velocity_zero_calls_note_off() {
    let (mut ctrl, mut recv) = note_channel(16);
    let message = [0x90, 60, 0];
    handle_midi_message(&message, &mut ctrl);
    assert_eq!(recv.try_recv(), Some(PluginMidiEvent { status: 0x80, key: 60, velocity: 0 }));
}

#[test]
fn handle_note_off_calls_note_off() {
    let (mut ctrl, mut recv) = note_channel(16);
    let message = [0x80, 60, 64];
    handle_midi_message(&message, &mut ctrl);
    assert_eq!(recv.try_recv(), Some(PluginMidiEvent { status: 0x80, key: 60, velocity: 0 }));
}

#[test]
fn handle_cc_calls_control_change() {
    let (mut ctrl, mut recv) = note_channel(16);
    let message = [0xB0, 1, 127];
    handle_midi_message(&message, &mut ctrl);
    assert_eq!(recv.try_recv(), Some(PluginMidiEvent { status: 0xB0, key: 1, velocity: 127 }));
}

#[test]
fn handle_unknown_status_is_noop() {
    let (mut ctrl, mut recv) = note_channel(16);
    let message = [0xF0, 0x7E, 0x7F];
    handle_midi_message(&message, &mut ctrl);
    assert_eq!(recv.try_recv(), None);
}

#[test]
fn handle_short_message_is_noop() {
    let (mut ctrl, mut recv) = note_channel(16);
    handle_midi_message(&[0x90, 60], &mut ctrl);
    handle_midi_message(&[0x90], &mut ctrl);
    handle_midi_message(&[], &mut ctrl);
    assert_eq!(recv.try_recv(), None);
}

#[test]
fn forward_note_on_via_midi_event_sender() {
    let (mut tx, mut rx) = midi_event_channel(16);
    let message = [0x90, 60, 100];
    forward_midi_event(&message, &mut tx);
    assert_eq!(rx.try_recv(), Some(MidiEvent::NoteOn { note: 60, velocity: 100 }));
}

#[test]
fn forward_note_off_via_midi_event_sender() {
    let (mut tx, mut rx) = midi_event_channel(16);
    let message = [0x80, 60, 64];
    forward_midi_event(&message, &mut tx);
    assert_eq!(rx.try_recv(), Some(MidiEvent::NoteOff { note: 60 }));
}

#[test]
fn forward_cc_via_midi_event_sender() {
    let (mut tx, mut rx) = midi_event_channel(16);
    let message = [0xB0, 1, 127];
    forward_midi_event(&message, &mut tx);
    assert_eq!(rx.try_recv(), Some(MidiEvent::ControlChange { cc: 1, value: 127 }));
}

#[test]
fn forward_short_message_is_noop() {
    let (mut tx, mut rx) = midi_event_channel(16);
    forward_midi_event(&[0x90, 60], &mut tx);
    forward_midi_event(&[], &mut tx);
    assert_eq!(rx.try_recv(), None);
}

#[test]
fn channel_bits_of_status_are_ignored() {
    let (mut tx, mut rx) = midi_event_channel(16);
    forward_midi_event(&[0x93, 64, 80], &mut tx);
    forward_midi_event(&[0x8F, 64, 0], &mut tx);
    assert_eq!(rx.try_recv(), Some(MidiEvent::NoteOn { note: 64, velocity: 80 }));
    assert_eq!(rx.try_recv(), Some(MidiEvent::NoteOff { note: 64 }));
}

#[test]
fn note_channel_multiple_events() {
    let (mut ctrl, mut recv) = note_channel(32);
    ctrl.note_on(60, 100);
    ctrl.note_on(64, 80);
    ctrl.note_on(67, 90);
    let mut notes = Vec::new();
    while let Some(e) = recv.try_recv() {
        if let Some(n) = plugin_note(e) {
            notes.push(n);
        }
    }
    assert_eq!(notes.len(), 3);
    assert_eq!(notes[0], PluginNote::On { key: 60, velocity: 100 });
    assert_eq!(notes[2], PluginNote::On { key: 67, velocity: 90 });
}

#[test]
fn note_channel_velocity_zero_is_note_off() {
    let (mut ctrl, mut recv) = note_channel(32);
    ctrl.note_on(60, 0);
    let e = recv.try_recv().unwrap();
    assert_eq!(plugin_note(e), Some(PluginNote::Off { key: 60 }));
    assert_eq!(recv.try_recv(), None);
}

#[test]
fn full_queue_drops_events() {
    let (mut ctrl, mut recv) = note_channel(2);
    ctrl.note_on(60, 100);
    ctrl.note_on(62, 100);
    ctrl.note_on(64, 100);
    assert_eq!(recv.try_recv().map(|e| e.key), Some(60));
    assert_eq!(recv.try_recv().map(|e| e.key), Some(62));
    assert_eq!(recv.try_recv(), None);
}

#[test]
fn control_changes_are_no_plugin_notes() {
    assert_eq!(plugin_note(PluginMidiEvent { status: 0xB0, key: 1, velocity: 127 }), None);
    assert_eq!(plugin_note(PluginMidiEvent { status: 0x80, key: 5, velocity: 0 }), Some(PluginNote::Off { key: 5 }));
}

#[test]
fn port_index_by_name_finds_the_first_port_containing_the_text() {
    let ports = vec![
        "IAC Driver Bus 1".to_string(),
        "KORG Keystage MIDI 1".to_string(),
        "KORG Keystage MIDI 2".to_string(),
    ];
    assert_eq!(port_index_by_name(&ports, "Keystage"), Some(1));
    assert_eq!(port_index_by_name(&ports, "Bus"), Some(0));
    assert_eq!(port_index_by_name(&ports, "MIDI 2"), Some(2));
    assert_eq!(port_index_by_name(&ports, ""), Some(0));
    assert_eq!(port_index_by_name(&ports, "keystage"), None);
    assert_eq!(port_index_by_name(&[], "Keystage"), None);
}
