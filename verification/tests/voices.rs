use cplp::midi_input::PluginMidiEvent;
use cplp::voices::{VoiceBank, MAX_VOICES};

fn gain(velocity: u8) -> u32 {
    (velocity as f32 / 127.0).to_bits()
}

fn on(key: u8, velocity: u8) -> PluginMidiEvent {
    PluginMidiEvent { status: 0x90, key, velocity }
}

fn off(key: u8) -> PluginMidiEvent {
    PluginMidiEvent { status: 0x80, key, velocity: 0 }
}

fn sounding(bank: &VoiceBank) -> Vec<u8> {
    bank.voices().iter().filter(|v| v.active).map(|v| v.key).collect()
}

#[test]
fn new_bank_is_silent() {
    let bank = VoiceBank::new();
    assert_eq!(bank.voices().len(), MAX_VOICES);
    assert!(sounding(&bank).is_empty());
}

#[test]
fn note_on_takes_the_first_free_voice() {
    let mut bank = VoiceBank::new();
    bank.apply_event(on(60, 127), gain(127));
    bank.apply_event(on(64, 64), gain(64));
    assert_eq!(sounding(&bank), vec![60, 64]);
    assert_eq!(bank.voices()[1].gain_bits, gain(64));
    assert_eq!(bank.voices()[0].phase_bits, 0);
}

#[test]
fn repeated_note_on_reuses_its_voice() {
    let mut bank = VoiceBank::new();
    bank.apply_event(on(60, 100), gain(100));
    bank.apply_event(on(60, 50), gain(50));
    assert_eq!(sounding(&bank), vec![60]);
    assert_eq!(bank.voices()[0].gain_bits, gain(50));
}

#[test]
fn note_off_and_zero_velocity_silence() {
    let mut bank = VoiceBank::new();
    bank.apply_event(on(60, 100), gain(100));
    bank.apply_event(on(62, 100), gain(100));
    bank.apply_event(off(60), 0);
    assert_eq!(sounding(&bank), vec![62]);
    bank.apply_event(on(62, 0), gain(0));
    assert!(sounding(&bank).is_empty());
    bank.apply_event(on(65, 90), gain(90));
    assert_eq!(bank.voices()[0].key, 65);
}

#[test]
fn seventeenth_note_is_dropped() {
    let mut bank = VoiceBank::new();
    for k in 0..MAX_VOICES as u8 {
        bank.apply_event(on(40 + k, 100), gain(100));
    }
    bank.apply_event(on(100, 100), gain(100));
    assert_eq!(sounding(&bank).len(), MAX_VOICES);
    assert!(!sounding(&bank).contains(&100));
}

#[test]
fn control_changes_leave_voices_alone() {
    let mut bank = VoiceBank::new();
    bank.apply_event(on(60, 100), gain(100));
    bank.apply_event(PluginMidiEvent { status: 0xB0, key: 60, velocity: 0 }, 0);
    assert_eq!(sounding(&bank), vec![60]);
    bank.set_phase(0, 0.25f32.to_bits());
    assert_eq!(bank.voices()[0].phase_bits, 0.25f32.to_bits());
}
