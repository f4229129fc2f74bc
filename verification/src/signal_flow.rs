//! The signal-flow display of the HUD: which nodes it shows, how they are
//! connected and which are active. Signal levels are measured as `f32`; here
//! each node and edge only says where its level comes from.
use vstd::prelude::*;
use crate::flux::{FluxSnapshot, LooperState, ModuleState};
use crate::types::{AudioNodeKind, NodeActivity};

verus! {

/// The bit pattern of `0.7f32`, the share of the local level shown for the beat machine.
pub const BEAT_SHARE_BITS: u32 = 0x3F33_3333;

/// The bit pattern of `0.5f32`, the share of the local level shown for the looper.
pub const LOOPER_SHARE_BITS: u32 = 0x3F00_0000;

/// The bit pattern of `0.3f32`, the local level shown while no meter exists.
pub const NO_METER_LOCAL_BITS: u32 = 0x3E99_999A;

/// The measured output levels, as `f32` bit patterns.
#[derive(Debug, Clone, Copy, PartialEq, Eq, Structural)]
pub struct MeterLevels {
    pub local_bits: u32,
    pub remote_bits: u32,
}

/// The levels the display works from: the meters' readings, or, while there
/// are no meters, a local level of 0.3 and a remote level of 0.0.
pub fn measured_levels(meters: Option<MeterLevels>) -> (r: MeterLevels)
    ensures
        r == (match meters {
            Some(m) => m,
            None => MeterLevels { local_bits: NO_METER_LOCAL_BITS, remote_bits: 0 },
        }),
{
    match meters {
        Some(m) => m,
        None => MeterLevels { local_bits: NO_METER_LOCAL_BITS, remote_bits: 0 },
    }
}

/// Where a displayed level comes from.
#[derive(Debug, Clone, Copy, PartialEq, Eq, Structural)]
pub enum LevelSource {
    /// No signal (0.0).
    Silent,
    /// The local output level.
    Local,
    /// The local output level times a factor, given as `f32` bits.
    LocalScaled { factor_bits: u32 },
    /// The level received from the peer.
    Remote,
}

/// A node of the display.
#[derive(Debug, Clone, PartialEq, Eq)]
pub struct FlowNode {
    pub kind: AudioNodeKind,
    pub activity: NodeActivity,
    pub level: LevelSource,
}

/// A connection of the display, between positions of the node list.
#[derive(Debug, Clone, Copy, PartialEq, Eq, Structural)]
pub struct FlowEdge {
    pub from: usize,
    pub to: usize,
    pub level: LevelSource,
}

/// The nodes and connections of the display.
#[derive(Debug, Clone, PartialEq, Eq)]
pub struct FlowGraph {
    pub nodes: Vec<FlowNode>,
    pub edges: Vec<FlowEdge>,
}

/// A module that is ready or playing is active.
pub open spec fn module_activity(s: ModuleState) -> NodeActivity {
    match s {
        ModuleState::Off => NodeActivity::Inactive,
        _ => NodeActivity::Active,
    }
}

/// Active or inactive.
pub open spec fn activity_if(b: bool) -> NodeActivity {
    if b { NodeActivity::Active } else { NodeActivity::Inactive }
}

/// A level, or silence.
pub open spec fn level_if(b: bool, l: LevelSource) -> LevelSource {
    if b { l } else { LevelSource::Silent }
}

/// Whether the looper is recording or playing.
pub open spec fn looper_running(s: LooperState) -> bool {
    s == LooperState::Recording || s == LooperState::Playing
}

/// The name shown on the synth node: the active plugin's, or empty.
pub open spec fn synth_name(p: Option<String>) -> Seq<char> {
    match p {
        Some(s) => s@,
        None => Seq::empty(),
    }
}

/// The connections of the display, as (from, to, level): MIDI In to the
/// synth, the synth, the beat machine and the looper to the mixer, the mixer
/// to the output and to the network sender, and, while connected, the
/// network receiver to the mixer.
pub open spec fn flow_edges(f: FluxSnapshot, connected: bool) -> Seq<FlowEdge> {
    let synth = f.synth_state == ModuleState::Playing;
    let beat = f.beat_machine_state == ModuleState::Playing;
    let looper = looper_running(f.looper_state);
    let fixed = seq![
        FlowEdge { from: 0, to: 1, level: level_if(synth, LevelSource::Local) },
        FlowEdge { from: 1, to: 4, level: level_if(synth, LevelSource::Local) },
        FlowEdge { from: 2, to: 4, level: level_if(beat, LevelSource::LocalScaled { factor_bits: BEAT_SHARE_BITS }) },
        FlowEdge { from: 3, to: 4, level: level_if(looper, LevelSource::LocalScaled { factor_bits: LOOPER_SHARE_BITS }) },
        FlowEdge { from: 4, to: 5, level: LevelSource::Local },
        FlowEdge { from: 4, to: 7, level: level_if(connected, LevelSource::Local) },
    ];
    if connected {
        fixed.push(FlowEdge { from: 6, to: 4, level: LevelSource::Remote })
    } else {
        fixed
    }
}

/// The looper shows as running, with its share of the local level on its
/// node and on its edge to the mixer, exactly while it records or plays; an
/// empty or stopped looper is inactive and silent.
pub proof fn law_looper_shows_while_recording_or_playing(f: FluxSnapshot, connected: bool)
    ensures
        looper_running(f.looper_state) <==> (f.looper_state == LooperState::Recording || f.looper_state
            == LooperState::Playing),
        activity_if(looper_running(f.looper_state)) == NodeActivity::Active <==> (f.looper_state
            == LooperState::Recording || f.looper_state == LooperState::Playing),
        flow_edges(f, connected)[3].level == (if f.looper_state == LooperState::Recording || f.looper_state
            == LooperState::Playing {
            LevelSource::LocalScaled { factor_bits: LOOPER_SHARE_BITS }
        } else {
            LevelSource::Silent
        }),
        flow_edges(f, connected)[3].from == 3 && flow_edges(f, connected)[3].to == 4,
{
}

/// The display of the modules' state and the session's: eight nodes in a
/// fixed order (MIDI In, synth, beat machine, looper, mixer, output, network
/// receiver, network sender) and their connections ([`flow_edges`]).
pub fn build_flow_graph(flux: &FluxSnapshot, connected: bool) -> (r: FlowGraph)
    ensures
        r.nodes@.len() == 8,
        ({
            let synth = flux.synth_state == ModuleState::Playing;
            let beat = flux.beat_machine_state == ModuleState::Playing;
            let looper = looper_running(flux.looper_state);
            &&& r.nodes@[0] == FlowNode {
                kind: AudioNodeKind::MidiInput,
                activity: activity_if(synth || beat),
                level: level_if(synth, LevelSource::Local),
            }
            &&& r.nodes@[1].kind matches AudioNodeKind::Synth { plugin_name } && plugin_name@ == synth_name(
                flux.active_plugin,
            )
            &&& r.nodes@[1].activity == module_activity(flux.synth_state)
            &&& r.nodes@[1].level == level_if(synth, LevelSource::Local)
            &&& r.nodes@[2] == FlowNode {
                kind: AudioNodeKind::BeatMachine,
                activity: module_activity(flux.beat_machine_state),
                level: level_if(beat, LevelSource::LocalScaled { factor_bits: BEAT_SHARE_BITS }),
            }
            &&& r.nodes@[3] == FlowNode {
                kind: AudioNodeKind::Looper,
                activity: activity_if(looper),
                level: level_if(looper, LevelSource::LocalScaled { factor_bits: LOOPER_SHARE_BITS }),
            }
            &&& r.nodes@[4] == FlowNode { kind: AudioNodeKind::Mixer, activity: NodeActivity::Active, level: LevelSource::Local }
            &&& r.nodes@[5] == FlowNode {
                kind: AudioNodeKind::AudioOutput,
                activity: NodeActivity::Active,
                level: LevelSource::Local,
            }
            &&& r.nodes@[6] == FlowNode {
                kind: AudioNodeKind::NetworkRecv,
                activity: activity_if(connected),
                level: LevelSource::Remote,
            }
            &&& r.nodes@[7] == FlowNode {
                kind: AudioNodeKind::NetworkSend,
                activity: activity_if(connected),
                level: LevelSource::Local,
            }
        }),
        r.edges@ == flow_edges(*flux, connected),
        r.nodes@[3].activity == NodeActivity::Active <==> (flux.looper_state == LooperState::Recording
            || flux.looper_state == LooperState::Playing),
        r.edges@[3].level != LevelSource::Silent <==> (flux.looper_state == LooperState::Recording
            || flux.looper_state == LooperState::Playing),
{
    let synth = flux.synth_state == ModuleState::Playing;
    let beat = flux.beat_machine_state == ModuleState::Playing;
    let looper = flux.looper_state == LooperState::Recording || flux.looper_state == LooperState::Playing;
    let plugin_name = match &flux.active_plugin {
        Some(s) => s.clone(),
        None => String::new(),
    };
    let synth_activity = match flux.synth_state {
        ModuleState::Off => NodeActivity::Inactive,
        _ => NodeActivity::Active,
    };
    let beat_activity = match flux.beat_machine_state {
        ModuleState::Off => NodeActivity::Inactive,
        _ => NodeActivity::Active,
    };
    let local_if = |b: bool| -> (l: LevelSource)
        ensures
            l == level_if(b, LevelSource::Local),
        {
            if b { LevelSource::Local } else { LevelSource::Silent }
        };
    let active_if = |b: bool| -> (a: NodeActivity)
        ensures
            a == activity_if(b),
        {
            if b { NodeActivity::Active } else { NodeActivity::Inactive }
        };
    let beat_level = if beat { LevelSource::LocalScaled { factor_bits: BEAT_SHARE_BITS } } else { LevelSource::Silent };
    let looper_level = if looper {
        LevelSource::LocalScaled { factor_bits: LOOPER_SHARE_BITS }
    } else {
        LevelSource::Silent
    };
    let mut nodes: Vec<FlowNode> = Vec::new();
    nodes.push(FlowNode { kind: AudioNodeKind::MidiInput, activity: active_if(synth || beat), level: local_if(synth) });
    nodes.push(FlowNode { kind: AudioNodeKind::Synth { plugin_name }, activity: synth_activity, level: local_if(synth) });
    nodes.push(FlowNode { kind: AudioNodeKind::BeatMachine, activity: beat_activity, level: beat_level });
    nodes.push(FlowNode { kind: AudioNodeKind::Looper, activity: active_if(looper), level: looper_level });
    nodes.push(FlowNode { kind: AudioNodeKind::Mixer, activity: NodeActivity::Active, level: LevelSource::Local });
    nodes.push(FlowNode { kind: AudioNodeKind::AudioOutput, activity: NodeActivity::Active, level: LevelSource::Local });
    nodes.push(FlowNode { kind: AudioNodeKind::NetworkRecv, activity: active_if(connected), level: LevelSource::Remote });
    nodes.push(FlowNode { kind: AudioNodeKind::NetworkSend, activity: active_if(connected), level: LevelSource::Local });
    let mut edges: Vec<FlowEdge> = Vec::new();
    edges.push(FlowEdge { from: 0, to: 1, level: local_if(synth) });
    edges.push(FlowEdge { from: 1, to: 4, level: local_if(synth) });
    edges.push(FlowEdge { from: 2, to: 4, level: beat_level });
    edges.push(FlowEdge { from: 3, to: 4, level: looper_level });
    edges.push(FlowEdge { from: 4, to: 5, level: LevelSource::Local });
    edges.push(FlowEdge { from: 4, to: 7, level: local_if(connected) });
    if connected {
        edges.push(FlowEdge { from: 6, to: 4, level: LevelSource::Remote });
    }
    assert(edges@ =~= flow_edges(*flux, connected));
    FlowGraph { nodes, edges }
}

} // verus!
