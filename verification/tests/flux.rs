use cplp::flux::{Flux, LooperState, ModuleState};
use cplp::module::{ModuleCategory, ModuleInfo};

fn module(id: &str) -> ModuleInfo {
    ModuleInfo { id: id.to_string(), name: id.to_string(), vendor: "cplp".to_string(), category: ModuleCategory::Effect }
}

#[test]
fn flux_snapshot_default() {
    let flux = Flux::new(44100.0f32.to_bits(), 120.0f32.to_bits());
    let snap = flux.snapshot();
    assert_eq!(f32::from_bits(snap.bpm_bits), 120.0);
    assert_eq!(snap.synth_state, ModuleState::Off);
    assert_eq!(snap.beat_machine_state, ModuleState::Off);
    assert_eq!(snap.looper_state, LooperState::Empty);
    assert!(snap.active_plugin.is_none());
}

#[test]
fn flux_snapshot_reflects_state() {
    let mut flux = Flux::new(44100.0f32.to_bits(), 140.0f32.to_bits());
    flux.set_synth_state(ModuleState::Playing);
    flux.set_active_plugin(Some("Diva".into()));
    flux.set_looper_state(LooperState::Recording);

    let snap = flux.snapshot();
    assert_eq!(f32::from_bits(snap.bpm_bits), 140.0);
    assert_eq!(snap.synth_state, ModuleState::Playing);
    assert_eq!(snap.looper_state, LooperState::Recording);
    assert_eq!(snap.active_plugin.as_deref(), Some("Diva"));
}

#[test]
fn flux_keeps_its_sample_rate() {
    let flux = Flux::new(48000.0f32.to_bits(), 120.0f32.to_bits());
    assert_eq!(f32::from_bits(flux.sample_rate_bits()), 48000.0);
    assert_eq!(flux.module_count(), 0);
}

#[test]
fn beat_machine_state_shows_in_the_snapshot() {
    let mut flux = Flux::new(44100.0f32.to_bits(), 120.0f32.to_bits());
    flux.set_beat_machine_state(ModuleState::Ready);
    assert_eq!(flux.snapshot().beat_machine_state, ModuleState::Ready);
    flux.set_beat_machine_state(ModuleState::Playing);
    assert_eq!(flux.snapshot().beat_machine_state, ModuleState::Playing);
    assert_eq!(flux.snapshot().synth_state, ModuleState::Off);
}

#[test]
fn remove_module_takes_the_first_match_only() {
    let mut flux = Flux::new(44100.0f32.to_bits(), 120.0f32.to_bits());
    flux.register_module(module("delay"));
    flux.register_module(module("reverb"));
    flux.register_module(module("delay"));
    assert_eq!(flux.module_count(), 3);
    assert!(flux.remove_module("delay"));
    assert_eq!(flux.module_count(), 2);
    assert!(flux.remove_module("delay"));
    assert!(!flux.remove_module("delay"));
    assert!(flux.remove_module("reverb"));
    assert!(!flux.remove_module("reverb"));
    assert_eq!(flux.module_count(), 0);
}
