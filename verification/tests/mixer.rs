use cplp::mixer::{clamp_signed_unit_bits, clamp_unit_bits, should_output, MixerState, TrackState};
use cplp::types::PeerId;

fn vol(state: &MixerState, peer: &PeerId) -> f32 {
    f32::from_bits(state.track(peer).unwrap().volume_bits)
}

fn pan(state: &MixerState, peer: &PeerId) -> f32 {
    f32::from_bits(state.track(peer).unwrap().pan_bits)
}

#[test]
fn test_track_state_default() {
    let track = TrackState::new("Guitar");
    assert_eq!(f32::from_bits(track.volume_bits), 1.0);
    assert_eq!(f32::from_bits(track.pan_bits), 0.0);
    assert!(!track.mute);
    assert!(!track.solo);
    assert_eq!(track.label, "Guitar");
}

#[test]
fn test_mixer_state_add_remove_track() {
    let mut mixer = MixerState::new();
    let peer = PeerId::new("player-a");
    mixer.add_track(peer.clone(), TrackState::new("Synth"));
    assert_eq!(mixer.track_count(), 1);
    assert!(mixer.contains_track(&peer));
    mixer.remove_track(&peer);
    assert_eq!(mixer.track_count(), 0);
}

#[test]
fn test_mixer_state_apply_fader_lww() {
    let mut mixer = MixerState::new();
    let peer = PeerId::new("player-a");
    mixer.add_track(peer.clone(), TrackState::new("Bass"));
    mixer.apply_fader(&peer, 0.8f32.to_bits(), 100);
    assert_eq!(vol(&mixer, &peer), 0.8);
    mixer.apply_fader(&peer, 0.3f32.to_bits(), 50);
    assert_eq!(vol(&mixer, &peer), 0.8);
    mixer.apply_fader(&peer, 0.5f32.to_bits(), 200);
    assert_eq!(vol(&mixer, &peer), 0.5);
}

#[test]
fn mixer_state_lww_fader_old_ts_ignored() {
    let mut mixer = MixerState::new();
    let peer = PeerId::new("alice");
    mixer.add_track(peer.clone(), TrackState::new("Vocal"));
    mixer.apply_fader(&peer, 0.7f32.to_bits(), 100);
    mixer.apply_fader(&peer, 0.2f32.to_bits(), 50);
    assert_eq!(vol(&mixer, &peer), 0.7);
}

#[test]
fn mixer_state_lww_fader_equal_ts_ignored() {
    let mut mixer = MixerState::new();
    let peer = PeerId::new("bob");
    mixer.add_track(peer.clone(), TrackState::new("Guitar"));
    mixer.apply_fader(&peer, 0.6f32.to_bits(), 100);
    mixer.apply_fader(&peer, 0.9f32.to_bits(), 100);
    assert_eq!(vol(&mixer, &peer), 0.6);
}

#[test]
fn mixer_state_lww_pan_concurrent_wins() {
    let mut mixer = MixerState::new();
    let peer = PeerId::new("carol");
    mixer.add_track(peer.clone(), TrackState::new("Keys"));
    mixer.apply_pan(&peer, (-0.5f32).to_bits(), 10);
    assert_eq!(pan(&mixer, &peer), -0.5);
    mixer.apply_pan(&peer, 0.8f32.to_bits(), 20);
    assert_eq!(pan(&mixer, &peer), 0.8);
}

#[test]
fn has_solo_with_multiple_solos() {
    let mut mixer = MixerState::new();
    let p1 = PeerId::new("p1");
    let p2 = PeerId::new("p2");
    mixer.add_track(p1.clone(), TrackState::new("A"));
    mixer.add_track(p2.clone(), TrackState::new("B"));
    mixer.apply_solo(&p1, true, 1);
    mixer.apply_solo(&p2, true, 1);
    assert!(mixer.has_solo());
}

#[test]
fn has_solo_false_when_all_off() {
    let mut mixer = MixerState::new();
    let p1 = PeerId::new("p1");
    let p2 = PeerId::new("p2");
    mixer.add_track(p1.clone(), TrackState::new("A"));
    mixer.add_track(p2.clone(), TrackState::new("B"));
    mixer.apply_solo(&p1, true, 1);
    mixer.apply_solo(&p2, true, 1);
    mixer.apply_solo(&p1, false, 2);
    mixer.apply_solo(&p2, false, 2);
    assert!(!mixer.has_solo());
}

#[test]
fn remove_nonexistent_track_noop() {
    let mut mixer = MixerState::new();
    let ghost = PeerId::new("ghost");
    mixer.remove_track(&ghost);
    assert_eq!(mixer.track_count(), 0);
}

#[test]
fn lww_fader_older_timestamp_rejected() {
    let mut state = MixerState::new();
    let peer = PeerId::new("peer");
    state.add_track(peer.clone(), TrackState::new("X"));
    state.apply_fader(&peer, 0.5f32.to_bits(), 100);
    state.apply_fader(&peer, 0.9f32.to_bits(), 50);
    assert_eq!(vol(&state, &peer), 0.5);
    assert_eq!(state.track(&peer).unwrap().last_fader_ts, 100);
}

#[test]
fn lww_pan_same_timestamp_rejected() {
    let mut state = MixerState::new();
    let peer = PeerId::new("peer");
    state.add_track(peer.clone(), TrackState::new("Y"));
    state.apply_pan(&peer, 0.3f32.to_bits(), 100);
    state.apply_pan(&peer, (-0.8f32).to_bits(), 100);
    assert_eq!(pan(&state, &peer), 0.3);
    assert_eq!(state.track(&peer).unwrap().last_pan_ts, 100);
}

#[test]
fn should_output_muted_track_ignored() {
    let mut state = MixerState::new();
    let peer = PeerId::new("peer");
    state.add_track(peer.clone(), TrackState::new("Guitar"));
    state.apply_mute(&peer, true, 1);
    assert!(!should_output(state.track(&peer).unwrap(), state.has_solo()));
}

#[test]
fn should_output_solo_multiple_tracks() {
    let mut state = MixerState::new();
    let ids: Vec<PeerId> = ["local", "pa", "pb", "pc"].iter().map(|s| PeerId::new(s)).collect();
    for id in &ids {
        state.add_track(id.clone(), TrackState::new("T"));
    }
    state.apply_solo(&ids[1], true, 1);
    state.apply_solo(&ids[2], true, 1);
    let solo = state.has_solo();
    let heard: Vec<bool> = ids.iter().map(|id| should_output(state.track(id).unwrap(), solo)).collect();
    assert_eq!(heard, vec![false, true, true, false]);
}

#[test]
fn writes_commute_across_copies() {
    let peer = PeerId::new("p");
    let mut a = MixerState::new();
    let mut b = MixerState::new();
    a.add_track(peer.clone(), TrackState::new("P"));
    b.add_track(peer.clone(), TrackState::new("P"));
    a.apply_fader(&peer, 0.2f32.to_bits(), 5);
    a.apply_fader(&peer, 0.9f32.to_bits(), 7);
    b.apply_fader(&peer, 0.9f32.to_bits(), 7);
    b.apply_fader(&peer, 0.2f32.to_bits(), 5);
    assert_eq!(vol(&a, &peer), vol(&b, &peer));
    assert_eq!(vol(&a, &peer), 0.9);
}

#[test]
fn add_track_replaces_and_writes_to_missing_tracks_do_nothing() {
    let mut m = MixerState::default();
    let p = PeerId::new("p");
    m.add_track(p.clone(), TrackState::new("one"));
    m.add_track(p.clone(), TrackState::new("two"));
    assert_eq!(m.track_count(), 1);
    assert_eq!(m.track(&p).unwrap().label, "two");
    m.apply_fader(&PeerId::new("nobody"), 0.1f32.to_bits(), 9);
    assert_eq!(vol(&m, &p), 1.0);
    assert_eq!(m.tracks().len(), 1);
}

#[test]
fn master_volume_is_last_writer_wins_and_clamped() {
    let mut m = MixerState::new();
    m.apply_master(2.0f32.to_bits(), 3);
    assert_eq!(f32::from_bits(m.master_volume_bits), 1.0);
    m.apply_master(0.25f32.to_bits(), 2);
    assert_eq!(f32::from_bits(m.master_volume_bits), 1.0);
    m.apply_master(0.25f32.to_bits(), 4);
    assert_eq!(f32::from_bits(m.master_volume_bits), 0.25);
    assert_eq!(m.last_master_ts, 4);
}

#[test]
fn clamping_on_bits_matches_f32_clamp() {
    let samples = [
        0.0f32, -0.0, 0.5, 1.0, 1.0000001, 2.0, -0.5, -1.0, -1.5, f32::INFINITY, f32::NEG_INFINITY,
        f32::MIN_POSITIVE, -f32::MIN_POSITIVE, f32::MAX, f32::MIN, 0.9999999,
    ];
    for &x in &samples {
        assert_eq!(clamp_unit_bits(x.to_bits()), x.clamp(0.0, 1.0).to_bits(), "unit clamp of {x}");
        assert_eq!(clamp_signed_unit_bits(x.to_bits()), x.clamp(-1.0, 1.0).to_bits(), "signed clamp of {x}");
    }
    let nan = f32::NAN;
    assert!(f32::from_bits(clamp_unit_bits(nan.to_bits())).is_nan());
    assert!(f32::from_bits(clamp_signed_unit_bits((-nan).to_bits())).is_nan());
}
