use cplp::audio_graph::{AudioGraph, NodeType};
use cplp::bridge::{
    AudioControl, AudioStartStep, AudioState,
    graph_add_plugin, graph_connect, graph_remove_node, mixer_info, RuntimeSlot, TrackInfo,
    mixer_set_mute, mixer_set_pan, mixer_set_volume, require_connected, session_connect, session_disconnect,
    MixerCommandError, SessionState,
};
use cplp::ffi::{version, CplpResult, CplpSessionStatus};
use cplp::mixer::{MixerState, TrackState};
use cplp::types::PeerId;

fn connected() -> (SessionState, MixerState) {
    let mut s = SessionState::new();
    let mut m = MixerState::new();
    assert!(session_connect(&mut s, &mut m, "ws://localhost:8080").is_ok());
    (s, m)
}

fn code(r: Result<(), MixerCommandError>) -> CplpResult {
    match r {
        Ok(()) => CplpResult::Success,
        Err(e) => e.code(),
    }
}

#[test]
fn mixer_set_volume_without_session_returns_session_error() {
    let s = SessionState::new();
    let mut m = MixerState::new();
    let r = mixer_set_volume(&s, &mut m, &PeerId::new("local"), 0.5f32.to_bits(), 1);
    assert_eq!(code(r), CplpResult::SessionError);
}

#[test]
fn mixer_set_volume_nonexistent_peer_returns_invalid_argument() {
    let (s, mut m) = connected();
    let r = mixer_set_volume(&s, &mut m, &PeerId::new("nonexistent-peer"), 0.5f32.to_bits(), 1);
    assert_eq!(r, Err(MixerCommandError::NoSuchTrack("nonexistent-peer".to_string())));
}

#[test]
fn mixer_set_volume_out_of_range_high_returns_invalid_argument() {
    let (s, mut m) = connected();
    let r = mixer_set_volume(&s, &mut m, &PeerId::new("local"), 1.5f32.to_bits(), 1);
    assert_eq!(code(r), CplpResult::InvalidArgument);
}

#[test]
fn mixer_set_volume_out_of_range_low_returns_invalid_argument() {
    let (s, mut m) = connected();
    let r = mixer_set_volume(&s, &mut m, &PeerId::new("local"), (-0.1f32).to_bits(), 1);
    assert_eq!(r, Err(MixerCommandError::VolumeOutOfRange((-0.1f32).to_bits())));
}

#[test]
fn mixer_set_volume_valid_returns_ok() {
    let (s, mut m) = connected();
    let local = PeerId::new("local");
    assert_eq!(mixer_set_volume(&s, &mut m, &local, 0.7f32.to_bits(), 1), Ok(()));
    assert_eq!(f32::from_bits(m.track(&local).unwrap().volume_bits), 0.7);
}

#[test]
fn mixer_set_pan_out_of_range_returns_invalid_argument() {
    let (s, mut m) = connected();
    let r = mixer_set_pan(&s, &mut m, &PeerId::new("local"), (-1.5f32).to_bits(), 1);
    assert_eq!(code(r), CplpResult::InvalidArgument);
}

#[test]
fn mixer_set_pan_valid_returns_ok() {
    let (s, mut m) = connected();
    assert_eq!(mixer_set_pan(&s, &mut m, &PeerId::new("local"), (-0.5f32).to_bits(), 1), Ok(()));
}

#[test]
fn mixer_set_mute_valid_returns_ok() {
    let (s, mut m) = connected();
    let local = PeerId::new("local");
    assert_eq!(mixer_set_mute(&s, &mut m, &local, true, 1), Ok(()));
    assert!(m.track(&local).unwrap().mute);
}

#[test]
fn mixer_set_volume_zero_is_valid() {
    let (s, mut m) = connected();
    assert_eq!(mixer_set_volume(&s, &mut m, &PeerId::new("local"), 0.0f32.to_bits(), 1), Ok(()));
    assert_eq!(mixer_set_volume(&s, &mut m, &PeerId::new("local"), (-0.0f32).to_bits(), 2), Ok(()));
}

#[test]
fn mixer_set_volume_one_is_valid() {
    let (s, mut m) = connected();
    assert_eq!(mixer_set_volume(&s, &mut m, &PeerId::new("local"), 1.0f32.to_bits(), 1), Ok(()));
}

#[test]
fn mixer_set_pan_minus_one_is_valid() {
    let (s, mut m) = connected();
    assert_eq!(mixer_set_pan(&s, &mut m, &PeerId::new("local"), (-1.0f32).to_bits(), 1), Ok(()));
}

#[test]
fn mixer_set_pan_plus_one_is_valid() {
    let (s, mut m) = connected();
    assert_eq!(mixer_set_pan(&s, &mut m, &PeerId::new("local"), 1.0f32.to_bits(), 1), Ok(()));
}

#[test]
fn nan_volume_is_out_of_range() {
    let (s, mut m) = connected();
    let r = mixer_set_volume(&s, &mut m, &PeerId::new("local"), f32::NAN.to_bits(), 1);
    assert_eq!(r, Err(MixerCommandError::VolumeOutOfRange(f32::NAN.to_bits())));
}

#[test]
fn mixer_get_state_returns_tracks_after_connect() {
    let (s, m) = connected();
    assert_eq!(s.status, CplpSessionStatus::Connected);
    assert_eq!(s.peer_count, 1);
    assert_eq!(s.lobby_url.as_deref(), Some("ws://localhost:8080"));
    assert_eq!(m.track_count(), 1);
    assert_eq!(m.track(&PeerId::new("local")).unwrap().label, "Me");
}

#[test]
fn connect_twice_and_empty_url_are_refused() {
    let (mut s, mut m) = connected();
    let e = session_connect(&mut s, &mut m, "ws://other").unwrap_err();
    assert_eq!(e.code, CplpResult::SessionError);
    assert_eq!(e.message, "cplp_session_connect: 既に接続中または接続済み");
    let mut fresh = SessionState::new();
    let e = session_connect(&mut fresh, &mut m, "").unwrap_err();
    assert_eq!(e.code, CplpResult::InvalidArgument);
    assert_eq!(e.message, "cplp_session_connect: lobby_url が空");
}

#[test]
fn disconnect_clears_session_and_mixer() {
    let (mut s, mut m) = connected();
    assert!(session_disconnect(&mut s, &mut m).is_ok());
    assert_eq!(s.status, CplpSessionStatus::Disconnected);
    assert_eq!(s.lobby_url, None);
    assert_eq!(s.peer_count, 0);
    assert_eq!(m.track_count(), 0);
    let e = session_disconnect(&mut s, &mut m).unwrap_err();
    assert_eq!(e.code, CplpResult::SessionError);
    assert_eq!(e.message, "cplp_session_disconnect: 既に切断済み");
    let e = require_connected(&s).unwrap_err();
    assert_eq!(e.message, "セッション未接続");
}

#[test]
fn test_version_returns_correct_values() {
    let v = version();
    assert_eq!((v.major, v.minor, v.patch), (0, 1, 0));
}

#[test]
fn result_codes_match_the_c_header() {
    assert_eq!(CplpResult::Success.code(), 0);
    assert_eq!(CplpResult::InitError.code(), 1);
    assert_eq!(CplpResult::InvalidArgument.code(), 2);
    assert_eq!(CplpResult::NotInitialized.code(), 3);
    assert_eq!(CplpResult::AudioError.code(), 10);
    assert_eq!(CplpResult::SessionError.code(), 20);
    assert_eq!(CplpResult::InternalError.code(), 99);
}

fn init_code(slot: &mut RuntimeSlot<u32>, runtime: u32) -> CplpResult {
    match slot.init(runtime) {
        Ok(()) => CplpResult::Success,
        Err(e) => e.code,
    }
}

fn destroy_code(slot: &mut RuntimeSlot<u32>) -> CplpResult {
    match slot.destroy() {
        Ok(_) => CplpResult::Success,
        Err(e) => e.code,
    }
}

#[test]
fn test_init_and_destroy_lifecycle() {
    let mut slot = RuntimeSlot::new();
    assert_eq!(init_code(&mut slot, 7), CplpResult::Success);
    assert_eq!(destroy_code(&mut slot), CplpResult::Success);
}

#[test]
fn test_double_init_returns_error() {
    let mut slot = RuntimeSlot::new();
    assert_eq!(init_code(&mut slot, 1), CplpResult::Success);
    let e = slot.init(2).unwrap_err();
    assert_eq!(e.code, CplpResult::InitError);
    assert_eq!(e.message, "cplp_init: 既に初期化済み");
    assert_eq!(slot.get(), Some(&1));
}

#[test]
fn test_destroy_without_init_returns_not_initialized() {
    let mut slot: RuntimeSlot<u32> = RuntimeSlot::new();
    assert_eq!(destroy_code(&mut slot), CplpResult::NotInitialized);
}

#[test]
fn test_double_destroy_returns_not_initialized() {
    let mut slot = RuntimeSlot::new();
    assert_eq!(init_code(&mut slot, 3), CplpResult::Success);
    assert_eq!(slot.destroy(), Ok(3));
    let e = slot.destroy().unwrap_err();
    assert_eq!(e.code, CplpResult::NotInitialized);
    assert_eq!(e.message, "cplp_destroy: 未初期化");
}

#[test]
fn test_runtime_helper_returns_none_when_not_initialized() {
    let slot: RuntimeSlot<u32> = RuntimeSlot::new();
    assert!(slot.get().is_none());
}

#[test]
fn test_runtime_helper_returns_some_after_init() {
    let mut slot = RuntimeSlot::new();
    assert_eq!(init_code(&mut slot, 5), CplpResult::Success);
    assert_eq!(slot.get(), Some(&5));
}

#[test]
fn test_init_destroy_init_cycle() {
    let mut slot = RuntimeSlot::new();
    assert_eq!(init_code(&mut slot, 1), CplpResult::Success);
    assert_eq!(destroy_code(&mut slot), CplpResult::Success);
    assert_eq!(init_code(&mut slot, 2), CplpResult::Success);
    assert_eq!(slot.get(), Some(&2));
}

#[test]
fn graph_add_connect_and_remove_from_c() {
    let mut g = AudioGraph::new();
    let synth = graph_add_plugin(&mut g, Some("com.example.synth"), None, true);
    let fx = graph_add_plugin(&mut g, Some("com.example.reverb"), Some("Reverb"), false);
    let anon = graph_add_plugin(&mut g, None, None, false);
    assert_eq!(g.node(synth).unwrap().name, "com.example.synth");
    assert_eq!(
        g.node(synth).unwrap().node_type,
        NodeType::ClapInstrument { plugin_id: "com.example.synth".to_string() }
    );
    assert_eq!(g.node(fx).unwrap().name, "Reverb");
    assert_eq!(g.node(fx).unwrap().node_type, NodeType::ClapEffect { plugin_id: "com.example.reverb".to_string() });
    assert_eq!(g.node(anon).unwrap().name, "");
    assert_eq!(graph_connect(&mut g, synth, fx, false), CplpResult::Success);
    assert_eq!(graph_connect(&mut g, synth, fx, false), CplpResult::InvalidArgument);
    assert_eq!(graph_connect(&mut g, synth, fx, true), CplpResult::Success);
    assert_eq!(graph_connect(&mut g, synth, synth, true), CplpResult::InvalidArgument);
    assert_eq!(g.edge_count(), 2);
    assert_eq!(graph_remove_node(&mut g, fx), CplpResult::Success);
    assert_eq!(g.edge_count(), 0);
    assert_eq!(graph_remove_node(&mut g, fx), CplpResult::InvalidArgument);
    assert_eq!(graph_connect(&mut g, synth, fx, false), CplpResult::InvalidArgument);
}

#[test]
fn mixer_info_lists_tracks_and_leaves_out_nul_texts() {
    let (s, mut m) = connected();
    assert_eq!(mixer_set_volume(&s, &mut m, &PeerId::new("local"), 0.5f32.to_bits(), 1), Ok(()));
    m.add_track(PeerId::new("bad\0peer"), TrackState::new("x"));
    m.add_track(PeerId::new("remote"), TrackState::new("la\0bel"));
    m.add_track(PeerId::new("guest"), TrackState::new("Guest"));
    let info = mixer_info(&m);
    assert_eq!(info.master_volume_bits, 1.0f32.to_bits());
    assert_eq!(
        info.tracks,
        vec![
            TrackInfo {
                peer_id: "local".to_string(),
                label: "Me".to_string(),
                volume_bits: 0.5f32.to_bits(),
                pan_bits: 0.0f32.to_bits(),
                mute: false,
                solo: false,
            },
            TrackInfo {
                peer_id: "guest".to_string(),
                label: "Guest".to_string(),
                volume_bits: 1.0f32.to_bits(),
                pan_bits: 0.0f32.to_bits(),
                mute: false,
                solo: false,
            },
        ]
    );
}

#[test]
fn test_audio_start_without_init_returns_not_initialized() {
    let mut audio = AudioControl::new();
    let step = audio.start_step(false);
    assert_eq!(step, AudioStartStep::NotInitialized);
    assert_eq!(audio.finish_start(step, false), CplpResult::NotInitialized);
}

#[test]
fn test_audio_stop_without_init_returns_not_initialized() {
    let mut audio = AudioControl::new();
    assert_eq!(audio.stop(false), CplpResult::NotInitialized);
}

#[test]
fn test_audio_is_running_default_false() {
    let audio = AudioControl::new();
    assert!(!audio.is_running());
}

#[test]
fn test_audio_meters_default_zero() {
    let audio = AudioControl::new();
    assert_eq!(f32::from_bits(audio.meter_left_bits), 0.0);
    assert_eq!(f32::from_bits(audio.meter_right_bits), 0.0);
}

#[test]
fn audio_start_runs_once_and_stop_resets_the_meters() {
    let mut audio = AudioControl::new();
    let step = audio.start_step(true);
    assert_eq!(step, AudioStartStep::Start);
    assert_eq!(audio.finish_start(step, false), CplpResult::AudioError);
    assert!(!audio.is_running());
    assert_eq!(audio.finish_start(step, true), CplpResult::Success);
    assert_eq!(audio.state, AudioState::Running);
    assert_eq!(audio.start_step(true), AudioStartStep::AlreadyRunning);
    audio.meter_left_bits = 0.5f32.to_bits();
    assert_eq!(audio.stop(true), CplpResult::Success);
    assert!(!audio.is_running());
    assert_eq!(audio.meter_left_bits, 0);
}
