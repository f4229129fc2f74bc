use cplp::flux::{FluxSnapshot, LooperState, ModuleState};
use cplp::signal_flow::{measured_levels, MeterLevels, build_flow_graph, FlowEdge, LevelSource};
use cplp::types::{AudioNodeKind, NodeActivity};

#[test]
fn build_graph_creates_nodes_and_edges() {
    let flux = FluxSnapshot {
        synth_state: ModuleState::Playing,
        beat_machine_state: ModuleState::Off,
        looper_state: LooperState::Empty,
        active_plugin: Some("Diva".into()),
        bpm_bits: 120.0f32.to_bits(),
    };
    let g = build_flow_graph(&flux, true);
    assert_eq!(g.nodes.len(), 8);
    assert!(!g.edges.is_empty());
    assert_eq!(g.nodes[1].activity, NodeActivity::Active);
    assert_eq!(g.nodes[2].activity, NodeActivity::Inactive);
    assert_eq!(g.nodes[6].activity, NodeActivity::Active);
    assert_eq!(g.nodes[1].kind, AudioNodeKind::Synth { plugin_name: "Diva".into() });
    assert_eq!(g.edges.len(), 7);
    assert_eq!(g.edges[6], FlowEdge { from: 6, to: 4, level: LevelSource::Remote });
}

#[test]
fn default_snapshot_graph_when_disconnected() {
    let flux = FluxSnapshot::default();
    assert_eq!(flux.bpm_bits, 120.0f32.to_bits());
    let g = build_flow_graph(&flux, false);
    assert_eq!(g.nodes.len(), 8);
    assert_eq!(g.edges.len(), 6);
    assert_eq!(g.nodes[0].activity, NodeActivity::Inactive);
    assert_eq!(g.nodes[1].kind, AudioNodeKind::Synth { plugin_name: String::new() });
    assert_eq!(g.nodes[6].activity, NodeActivity::Inactive);
    assert_eq!(g.edges[5], FlowEdge { from: 4, to: 7, level: LevelSource::Silent });
}

#[test]
fn looper_and_beat_levels_are_shares_of_local() {
    let flux = FluxSnapshot {
        synth_state: ModuleState::Ready,
        beat_machine_state: ModuleState::Playing,
        looper_state: LooperState::Recording,
        active_plugin: None,
        bpm_bits: 90.0f32.to_bits(),
    };
    let g = build_flow_graph(&flux, false);
    assert_eq!(g.nodes[1].activity, NodeActivity::Active);
    assert_eq!(g.nodes[1].level, LevelSource::Silent);
    assert_eq!(g.nodes[0].activity, NodeActivity::Active);
    assert_eq!(g.nodes[2].level, LevelSource::LocalScaled { factor_bits: 0.7f32.to_bits() });
    assert_eq!(g.nodes[3].level, LevelSource::LocalScaled { factor_bits: 0.5f32.to_bits() });
    assert_eq!(g.nodes[3].activity, NodeActivity::Active);
}

#[test]
fn missing_meters_show_a_local_level_of_three_tenths() {
    let levels = measured_levels(None);
    assert_eq!(f32::from_bits(levels.local_bits), 0.3);
    assert_eq!(f32::from_bits(levels.remote_bits), 0.0);
    let m = MeterLevels { local_bits: 0.75f32.to_bits(), remote_bits: 0.25f32.to_bits() };
    assert_eq!(measured_levels(Some(m)), m);
}
