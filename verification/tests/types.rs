use std::collections::HashMap;

use cplp::types::{AudioNodeKind, CplpError, PeerId};

#[test]
fn test_peer_id_display_and_eq() {
    let id1 = PeerId::new("player-a");
    let id2 = PeerId::new("player-a");
    let id3 = PeerId::new("player-b");
    assert_eq!(id1, id2);
    assert_ne!(id1, id3);
    assert_eq!(id1.to_string(), "player-a");
}

#[test]
fn peer_id_display_format() {
    let id = PeerId::new("alice");
    assert_eq!(format!("{}", id.to_string()), "alice");
}

#[test]
fn peer_id_hash_equality() {
    let a = PeerId::new("same-key");
    let b = PeerId::new("same-key");
    let mut map = HashMap::new();
    map.insert(a, 42);
    assert_eq!(map[&b], 42);
}

#[test]
fn peer_ids_compare_by_text() {
    assert!(PeerId::new("x").same_as(&PeerId::new("x")));
    assert!(!PeerId::new("x").same_as(&PeerId::new("y")));
    assert_eq!(PeerId::new("x").as_str(), "x");
}

#[test]
fn audio_node_kind_label() {
    assert_eq!(AudioNodeKind::MidiInput.label(), "MIDI In");
    assert_eq!(AudioNodeKind::Synth { plugin_name: "Diva".into() }.label(), "Diva");
    assert_eq!(AudioNodeKind::Synth { plugin_name: String::new() }.label(), "Synth");
    assert_eq!(AudioNodeKind::Mixer.label(), "Mixer");
}

#[test]
fn every_node_kind_has_its_label() {
    assert_eq!(AudioNodeKind::BeatMachine.label(), "Beat");
    assert_eq!(AudioNodeKind::Looper.label(), "Looper");
    assert_eq!(AudioNodeKind::NetworkSend.label(), "Net Send");
    assert_eq!(AudioNodeKind::NetworkRecv.label(), "Net Recv");
    assert_eq!(AudioNodeKind::AudioOutput.label(), "Output");
}

#[test]
fn error_messages_name_their_kind() {
    assert_eq!(CplpError::Audio("x".into()).message(), "audio error: x");
    assert_eq!(CplpError::Network("y".into()).message(), "network error: y");
    assert_eq!(CplpError::Session("z".into()).message(), "session error: z");
    assert_eq!(CplpError::Plugin("w".into()).message(), "plugin error: w");
}
