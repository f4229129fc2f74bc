//! What the C interface decides: connecting and disconnecting the session,
//! and the mixer commands with their checks. The C side keeps these states
//! behind its locks, turns C strings into text and records the error messages.
use vstd::prelude::*;
use crate::audio_graph::{AudioGraph, Edge, EdgeType, NodeId, NodeType, Position};
use crate::ffi::{CplpResult, CplpSessionStatus};
use crate::mixer::{
    with_fader, with_mute, with_pan, with_track_write, MixerState, MixerStateView, TrackState, MINUS_ONE_BITS,
    ONE_BITS,
};
use crate::types::PeerId;
use crate::text::chars_of;

verus! {

/// An error of a C interface call: its result code and the message recorded
/// for `cplp_last_error`.
#[derive(Debug, Clone, PartialEq, Eq)]
pub struct FfiError {
    pub code: CplpResult,
    pub message: String,
}

/// The session as the C interface sees it.
#[derive(Debug, Clone, PartialEq, Eq)]
pub struct SessionState {
    pub status: CplpSessionStatus,
    pub lobby_url: Option<String>,
    /// Peers in the session, this one included.
    pub peer_count: u32,
}

/// The lobby address of a session, as text.
pub open spec fn url_view(u: Option<String>) -> Option<Seq<char>> {
    match u {
        Some(s) => Some(s@),
        None => None,
    }
}

impl SessionState {
    /// Not connected, with no lobby and no peers.
    pub fn new() -> (r: Self)
        ensures
            r.status == CplpSessionStatus::Disconnected,
            r.lobby_url is None,
            r.peer_count == 0,
    {
        SessionState { status: CplpSessionStatus::Disconnected, lobby_url: None, peer_count: 0 }
    }
}

/// The peer identifier of this side's own track.
pub open spec fn local_peer() -> Seq<char> {
    "local"@
}

/// The mixer of a fresh session: this side's track alone, labelled "Me".
pub open spec fn fresh_session_mixer(m: MixerStateView) -> bool {
    &&& m.tracks.dom() == set![local_peer()]
    &&& m.tracks[local_peer()].label@ == "Me"@
    &&& m.tracks[local_peer()].volume_bits == ONE_BITS
    &&& m.tracks[local_peer()].pan_bits == 0
    &&& !m.tracks[local_peer()].mute
    &&& !m.tracks[local_peer()].solo
    &&& m.tracks[local_peer()].last_fader_ts == 0
    &&& m.tracks[local_peer()].last_pan_ts == 0
    &&& m.tracks[local_peer()].last_mute_ts == 0
    &&& m.tracks[local_peer()].last_solo_ts == 0
    &&& m.master_volume_bits == ONE_BITS
    &&& m.last_master_ts == 0
}

fn ffi_error(code: CplpResult, message: &str) -> (r: FfiError)
    ensures
        r.code == code,
        r.message@ == message@,
{
    FfiError { code, message: String::from_str(message) }
}

/// Connects the session to the lobby at `url` (already read from its C
/// string). Refused when the address is empty (an invalid argument) and when
/// the session is connecting or connected (a session error); otherwise the
/// session is connected with this side as its one peer, and the mixer starts
/// over with this side's track alone.
pub fn session_connect(session: &mut SessionState, mixer: &mut MixerState, url: &str) -> (r: Result<(), FfiError>)
    requires
        old(mixer).wf(),
    ensures
        final(mixer).wf(),
        url@.len() == 0 ==> (r matches Err(e) && e.code == CplpResult::InvalidArgument
            && e.message@ == "cplp_session_connect: lobby_url が空"@),
        url@.len() > 0 && (old(session).status == CplpSessionStatus::Connected || old(session).status
            == CplpSessionStatus::Connecting) ==> (r matches Err(e) && e.code == CplpResult::SessionError
            && e.message@ == "cplp_session_connect: 既に接続中または接続済み"@),
        r is Err ==> *final(session) == *old(session) && final(mixer)@ == old(mixer)@,
        r is Ok <==> url@.len() > 0 && old(session).status != CplpSessionStatus::Connected && old(session).status
            != CplpSessionStatus::Connecting,
        r is Ok ==> {
            &&& final(session).status == CplpSessionStatus::Connected
            &&& url_view(final(session).lobby_url) == Some(url@)
            &&& final(session).peer_count == 1
            &&& fresh_session_mixer(final(mixer)@)
        },
{
    if url.unicode_len() == 0 {
        return Err(ffi_error(CplpResult::InvalidArgument, "cplp_session_connect: lobby_url が空"));
    }
    match session.status {
        CplpSessionStatus::Connected | CplpSessionStatus::Connecting => {
            return Err(ffi_error(CplpResult::SessionError, "cplp_session_connect: 既に接続中または接続済み"));
        },
        _ => {},
    }
    session.status = CplpSessionStatus::Connecting;
    session.lobby_url = Some(String::from_str(url));
    session.peer_count = 1;
    let mut fresh = MixerState::new();
    fresh.add_track(PeerId::new("local"), TrackState::new("Me"));
    proof {
        reveal_strlit("local");
        assert(fresh@.tracks.dom() =~= set![local_peer()]);
    }
    *mixer = fresh;
    session.status = CplpSessionStatus::Connected;
    Ok(())
}

/// Disconnects the session. Refused (a session error) when it is already
/// disconnected; otherwise the session is left with no lobby and no peers,
/// and the mixer with no tracks.
pub fn session_disconnect(session: &mut SessionState, mixer: &mut MixerState) -> (r: Result<(), FfiError>)
    requires
        old(mixer).wf(),
    ensures
        final(mixer).wf(),
        r is Err <==> old(session).status == CplpSessionStatus::Disconnected,
        r matches Err(e) ==> e.code == CplpResult::SessionError && e.message@ == "cplp_session_disconnect: 既に切断済み"@
            && *final(session) == *old(session) && final(mixer)@ == old(mixer)@,
        r is Ok ==> {
            &&& final(session).status == CplpSessionStatus::Disconnected
            &&& final(session).lobby_url is None
            &&& final(session).peer_count == 0
            &&& final(mixer)@.tracks == Map::<Seq<char>, TrackState>::empty()
            &&& final(mixer)@.master_volume_bits == ONE_BITS
            &&& final(mixer)@.last_master_ts == 0
        },
{
    if session.status == CplpSessionStatus::Disconnected {
        return Err(ffi_error(CplpResult::SessionError, "cplp_session_disconnect: 既に切断済み"));
    }
    session.status = CplpSessionStatus::Disconnecting;
    *mixer = MixerState::new();
    session.status = CplpSessionStatus::Disconnected;
    session.lobby_url = None;
    session.peer_count = 0;
    Ok(())
}

/// Mixer commands are taken only while the session is connected.
pub fn require_connected(session: &SessionState) -> (r: Result<(), FfiError>)
    ensures
        r is Ok <==> session.status == CplpSessionStatus::Connected,
        r matches Err(e) ==> e.code == CplpResult::SessionError && e.message@ == "セッション未接続"@,
{
    if session.status != CplpSessionStatus::Connected {
        return Err(ffi_error(CplpResult::SessionError, "セッション未接続"));
    }
    Ok(())
}

/// Why a mixer command was refused.
#[derive(Debug, Clone, PartialEq, Eq)]
pub enum MixerCommandError {
    /// The session is not connected.
    NotConnected(FfiError),
    /// The volume (by its `f32` bits) is outside 0.0 to 1.0.
    VolumeOutOfRange(u32),
    /// The pan (by its `f32` bits) is outside -1.0 to 1.0.
    PanOutOfRange(u32),
    /// No track belongs to the peer.
    NoSuchTrack(String),
}

impl MixerCommandError {
    /// The result code the C interface returns for it.
    pub fn code(&self) -> (r: CplpResult)
        ensures
            r == (match *self {
                MixerCommandError::NotConnected(e) => e.code,
                _ => CplpResult::InvalidArgument,
            }),
    {
        match self {
            MixerCommandError::NotConnected(e) => e.code,
            _ => CplpResult::InvalidArgument,
        }
    }
}

/// Whether an `f32` (by its bits) lies in 0.0 to 1.0, both included; -0.0
/// does, NaN does not.
pub open spec fn in_unit_range(b: u32) -> bool {
    b <= ONE_BITS || b == 0x8000_0000
}

/// Whether an `f32` (by its bits) lies in -1.0 to 1.0, both included.
pub open spec fn in_signed_unit_range(b: u32) -> bool {
    b <= ONE_BITS || (0x8000_0000 <= b && b <= MINUS_ONE_BITS)
}

fn track_must_exist(mixer: &MixerState, peer: &PeerId) -> (r: Result<(), MixerCommandError>)
    requires
        mixer.wf(),
    ensures
        r is Ok <==> mixer@.tracks.contains_key(peer.0@),
        r matches Err(e) ==> e matches MixerCommandError::NoSuchTrack(p) && p@ == peer.0@,
{
    if !mixer.contains_track(peer) {
        return Err(MixerCommandError::NoSuchTrack(peer.to_string()));
    }
    Ok(())
}

/// Sets a track's volume at time `ts`. Refused, in this order, when the
/// session is not connected, when the volume is outside 0.0 to 1.0, and when
/// the peer has no track; otherwise the fader write is applied, last writer
/// wins.
pub fn mixer_set_volume(
    session: &SessionState,
    mixer: &mut MixerState,
    peer: &PeerId,
    volume_bits: u32,
    ts: u64,
) -> (r: Result<(), MixerCommandError>)
    requires
        old(mixer).wf(),
    ensures
        final(mixer).wf(),
        session.status != CplpSessionStatus::Connected ==> (r matches Err(MixerCommandError::NotConnected(e))
            && e.code == CplpResult::SessionError && e.message@ == "セッション未接続"@),
        session.status == CplpSessionStatus::Connected && !in_unit_range(volume_bits) ==> r == Err::<
            (),
            MixerCommandError,
        >(MixerCommandError::VolumeOutOfRange(volume_bits)),
        session.status == CplpSessionStatus::Connected && in_unit_range(volume_bits)
            && !old(mixer)@.tracks.contains_key(peer.0@) ==> (r matches Err(MixerCommandError::NoSuchTrack(p))
            && p@ == peer.0@),
        r is Err ==> final(mixer)@ == old(mixer)@,
        r is Ok ==> final(mixer)@ == (MixerStateView {
            tracks: with_track_write(old(mixer)@.tracks, peer.0@, |t: TrackState| with_fader(t, volume_bits, ts)),
            ..old(mixer)@
        }) && old(mixer)@.tracks.contains_key(peer.0@),
        r is Ok <==> session.status == CplpSessionStatus::Connected && in_unit_range(volume_bits)
            && old(mixer)@.tracks.contains_key(peer.0@),
{
    match require_connected(session) {
        Err(e) => {
            return Err(MixerCommandError::NotConnected(e));
        },
        Ok(()) => {},
    }
    if !(volume_bits <= ONE_BITS || volume_bits == 0x8000_0000) {
        return Err(MixerCommandError::VolumeOutOfRange(volume_bits));
    }
    track_must_exist(mixer, peer)?;
    mixer.apply_fader(peer, volume_bits, ts);
    Ok(())
}

/// Sets a track's pan at time `ts`. Refused, in this order, when the session
/// is not connected, when the pan is outside -1.0 to 1.0, and when the peer
/// has no track; otherwise the pan write is applied, last writer wins.
pub fn mixer_set_pan(
    session: &SessionState,
    mixer: &mut MixerState,
    peer: &PeerId,
    pan_bits: u32,
    ts: u64,
) -> (r: Result<(), MixerCommandError>)
    requires
        old(mixer).wf(),
    ensures
        final(mixer).wf(),
        session.status != CplpSessionStatus::Connected ==> (r matches Err(MixerCommandError::NotConnected(e))
            && e.code == CplpResult::SessionError && e.message@ == "セッション未接続"@),
        session.status == CplpSessionStatus::Connected && !in_signed_unit_range(pan_bits) ==> r == Err::<
            (),
            MixerCommandError,
        >(MixerCommandError::PanOutOfRange(pan_bits)),
        session.status == CplpSessionStatus::Connected && in_signed_unit_range(pan_bits)
            && !old(mixer)@.tracks.contains_key(peer.0@) ==> (r matches Err(MixerCommandError::NoSuchTrack(p))
            && p@ == peer.0@),
        r is Err ==> final(mixer)@ == old(mixer)@,
        r is Ok ==> final(mixer)@ == (MixerStateView {
            tracks: with_track_write(old(mixer)@.tracks, peer.0@, |t: TrackState| with_pan(t, pan_bits, ts)),
            ..old(mixer)@
        }),
        r is Ok <==> session.status == CplpSessionStatus::Connected && in_signed_unit_range(pan_bits)
            && old(mixer)@.tracks.contains_key(peer.0@),
{
    match require_connected(session) {
        Err(e) => {
            return Err(MixerCommandError::NotConnected(e));
        },
        Ok(()) => {},
    }
    if !(pan_bits <= ONE_BITS || (0x8000_0000 <= pan_bits && pan_bits <= MINUS_ONE_BITS)) {
        return Err(MixerCommandError::PanOutOfRange(pan_bits));
    }
    track_must_exist(mixer, peer)?;
    mixer.apply_pan(peer, pan_bits, ts);
    Ok(())
}

/// Mutes or unmutes a track at time `ts`. Refused when the session is not
/// connected, then when the peer has no track; otherwise the mute write is
/// applied, last writer wins.
pub fn mixer_set_mute(
    session: &SessionState,
    mixer: &mut MixerState,
    peer: &PeerId,
    mute: bool,
    ts: u64,
) -> (r: Result<(), MixerCommandError>)
    requires
        old(mixer).wf(),
    ensures
        final(mixer).wf(),
        session.status != CplpSessionStatus::Connected ==> (r matches Err(MixerCommandError::NotConnected(e))
            && e.code == CplpResult::SessionError && e.message@ == "セッション未接続"@),
        session.status == CplpSessionStatus::Connected && !old(mixer)@.tracks.contains_key(peer.0@)
            ==> (r matches Err(MixerCommandError::NoSuchTrack(p)) && p@ == peer.0@),
        r is Err ==> final(mixer)@ == old(mixer)@,
        r is Ok ==> final(mixer)@ == (MixerStateView {
            tracks: with_track_write(old(mixer)@.tracks, peer.0@, |t: TrackState| with_mute(t, mute, ts)),
            ..old(mixer)@
        }),
        r is Ok <==> session.status == CplpSessionStatus::Connected && old(mixer)@.tracks.contains_key(peer.0@),
{
    match require_connected(session) {
        Err(e) => {
            return Err(MixerCommandError::NotConnected(e));
        },
        Ok(()) => {},
    }
    track_must_exist(mixer, peer)?;
    mixer.apply_mute(peer, mute, ts);
    Ok(())
}

/// The slot that holds the runtime of the C interface: empty until
/// `cplp_init`, emptied by `cplp_destroy`.
pub struct RuntimeSlot<T> {
    runtime: Option<T>,
}

impl<T> View for RuntimeSlot<T> {
    type V = Option<T>;

    closed spec fn view(&self) -> Option<T> {
        self.runtime
    }
}

impl<T> RuntimeSlot<T> {
    /// An empty slot.
    pub fn new() -> (r: Self)
        ensures
            r@ is None,
    {
        RuntimeSlot { runtime: None }
    }

    /// Puts a runtime in the slot. Refused (an initialisation error) when
    /// one is there already, which stays.
    pub fn init(&mut self, runtime: T) -> (r: Result<(), FfiError>)
        ensures
            r is Ok <==> old(self)@ is None,
            r is Ok ==> final(self)@ == Some(runtime),
            r matches Err(e) ==> e.code == CplpResult::InitError && e.message@ == "cplp_init: 既に初期化済み"@
                && final(self)@ == old(self)@,
    {
        if self.runtime.is_some() {
            return Err(ffi_error(CplpResult::InitError, "cplp_init: 既に初期化済み"));
        }
        self.runtime = Some(runtime);
        Ok(())
    }

    /// Takes the runtime out of the slot. Refused (not initialised) when the
    /// slot is empty.
    pub fn destroy(&mut self) -> (r: Result<T, FfiError>)
        ensures
            final(self)@ is None,
            match old(self)@ {
                Some(t) => r == Ok::<T, FfiError>(t),
                None => r matches Err(e) && e.code == CplpResult::NotInitialized && e.message@
                    == "cplp_destroy: 未初期化"@,
            },
    {
        match self.runtime.take() {
            Some(t) => Ok(t),
            None => Err(ffi_error(CplpResult::NotInitialized, "cplp_destroy: 未初期化")),
        }
    }

    /// The runtime, if there is one.
    pub fn get(&self) -> (r: Option<&T>)
        ensures
            match r {
                Some(t) => self@ == Some(*t),
                None => self@ is None,
            },
    {
        match &self.runtime {
            Some(t) => Some(t),
            None => None,
        }
    }
}

/// The name and kind of the node for a plugin added from C: a missing
/// identifier is empty, a missing name is the identifier, and the plugin is
/// an instrument or an effect.
pub open spec fn plugin_node_of(
    plugin_id: Option<Seq<char>>,
    plugin_name: Option<Seq<char>>,
) -> (Seq<char>, Seq<char>) {
    let id = match plugin_id {
        Some(s) => s,
        None => Seq::empty(),
    };
    let name = match plugin_name {
        Some(s) => s,
        None => id,
    };
    (id, name)
}

/// The text of an optional string slice.
pub open spec fn opt_str(s: Option<&str>) -> Option<Seq<char>> {
    match s {
        Some(t) => Some(t@),
        None => None,
    }
}

/// Adds a plugin node to the graph and returns its identifier.
pub fn graph_add_plugin(
    graph: &mut AudioGraph,
    plugin_id: Option<&str>,
    plugin_name: Option<&str>,
    is_instrument: bool,
) -> (r: NodeId)
    requires
        old(graph).wf(),
        old(graph)@.next_node_id < u32::MAX,
    ensures
        final(graph).wf(),
        r == old(graph)@.next_node_id,
        ({
            let (id, name) = plugin_node_of(opt_str(plugin_id), opt_str(plugin_name));
            let n = final(graph)@.nodes[r];
            &&& final(graph)@.nodes == old(graph)@.nodes.insert(r, n)
            &&& n.id == r
            &&& n.name@ == name
            &&& n.position == (Position { x_bits: 0, y_bits: 0 })
            &&& (is_instrument ==> (n.node_type matches NodeType::ClapInstrument { plugin_id: p } && p@ == id))
            &&& (!is_instrument ==> (n.node_type matches NodeType::ClapEffect { plugin_id: p } && p@ == id))
        }),
        final(graph)@.edges == old(graph)@.edges,
        final(graph)@.next_node_id == r + 1,
{
    let id = match plugin_id {
        Some(s) => String::from_str(s),
        None => String::new(),
    };
    let name = match plugin_name {
        Some(s) => String::from_str(s),
        None => id.clone(),
    };
    let node_type = if is_instrument {
        NodeType::ClapInstrument { plugin_id: id }
    } else {
        NodeType::ClapEffect { plugin_id: id }
    };
    graph.add_node(name.as_str(), node_type)
}

/// Removes a node: success, or an invalid argument when there is no such node.
pub fn graph_remove_node(graph: &mut AudioGraph, node_id: NodeId) -> (r: CplpResult)
    requires
        old(graph).wf(),
    ensures
        final(graph).wf(),
        r == (if old(graph)@.nodes.contains_key(node_id) { CplpResult::Success } else { CplpResult::InvalidArgument }),
        final(graph)@.nodes == old(graph)@.nodes.remove(node_id),
{
    if graph.remove_node(node_id) {
        CplpResult::Success
    } else {
        CplpResult::InvalidArgument
    }
}

/// Connects two nodes by MIDI or by audio: success, or an invalid argument
/// when the graph refuses the connection.
pub fn graph_connect(graph: &mut AudioGraph, from_node: NodeId, to_node: NodeId, is_midi: bool) -> (r: CplpResult)
    requires
        old(graph).wf(),
        ({
            let t = if is_midi { EdgeType::Midi } else { EdgeType::Audio };
            from_node != to_node && old(graph)@.nodes.contains_key(from_node) && old(graph)@.nodes.contains_key(
                to_node,
            ) && !crate::audio_graph::has_connection(old(graph)@.edges, from_node, to_node, t)
                ==> old(graph)@.next_edge_id < u32::MAX
        }),
    ensures
        final(graph).wf(),
        final(graph)@.nodes == old(graph)@.nodes,
        ({
            let t = if is_midi { EdgeType::Midi } else { EdgeType::Audio };
            r == CplpResult::Success <==> (from_node != to_node && old(graph)@.nodes.contains_key(from_node)
                && old(graph)@.nodes.contains_key(to_node) && !crate::audio_graph::has_connection(
                old(graph)@.edges,
                from_node,
                to_node,
                t,
            ))
        }),
        r == CplpResult::Success || r == CplpResult::InvalidArgument,
        r == CplpResult::InvalidArgument ==> final(graph)@.edges == old(graph)@.edges,
        r == CplpResult::Success ==> ({
            let id = old(graph)@.next_edge_id;
            let t = if is_midi { EdgeType::Midi } else { EdgeType::Audio };
            final(graph)@.edges == old(graph)@.edges.insert(
                id,
                Edge { id, from_node: from_node, to_node: to_node, edge_type: t },
            )
        }),
{
    let edge_type = if is_midi { EdgeType::Midi } else { EdgeType::Audio };
    match graph.connect(from_node, to_node, edge_type) {
        Some(_) => CplpResult::Success,
        None => CplpResult::InvalidArgument,
    }
}

/// A track as the C interface hands it out: texts, the fader and pan as
/// `f32` bit patterns, and the switches.
#[derive(Debug, Clone, PartialEq, Eq)]
pub struct TrackInfo {
    pub peer_id: String,
    pub label: String,
    pub volume_bits: u32,
    pub pan_bits: u32,
    pub mute: bool,
    pub solo: bool,
}

/// The mixer as the C interface hands it out.
#[derive(Debug, Clone, PartialEq, Eq)]
pub struct MixerInfo {
    pub tracks: Vec<TrackInfo>,
    pub master_volume_bits: u32,
}

/// Whether a text can cross to C: it holds no NUL character.
pub open spec fn c_safe(s: Seq<char>) -> bool {
    !s.contains('\0')
}

/// Whether a track can cross to C: its peer identifier and its label can.
pub open spec fn exportable(e: (PeerId, TrackState)) -> bool {
    c_safe(e.0.0@) && c_safe(e.1.label@)
}

/// The tracks that cross to C, in order.
pub open spec fn exported(s: Seq<(PeerId, TrackState)>) -> Seq<(PeerId, TrackState)> {
    s.filter(|e: (PeerId, TrackState)| exportable(e))
}

/// Whether the info describes the track.
pub open spec fn describes(i: TrackInfo, e: (PeerId, TrackState)) -> bool {
    &&& i.peer_id@ == e.0.0@
    &&& i.label@ == e.1.label@
    &&& i.volume_bits == e.1.volume_bits
    &&& i.pan_bits == e.1.pan_bits
    &&& i.mute == e.1.mute
    &&& i.solo == e.1.solo
}

/// Whether a text holds a NUL character.
fn has_nul(s: &str) -> (r: bool)
    ensures
        r == !c_safe(s@),
{
    let cs = chars_of(s);
    let mut i: usize = 0;
    while i < cs.len()
        invariant
            cs@ == s@,
            i <= cs@.len(),
            forall|j: int| 0 <= j < i ==> cs@[j] != '\0',
        decreases cs@.len() - i,
    {
        if cs[i] == '\0' {
            assert(s@[i as int] == '\0');
            return true;
        }
        i = i + 1;
    }
    assert(!s@.contains('\0'));
    false
}

/// The mixer's tracks for C, in the mixer's order, leaving out each track
/// whose peer identifier or label holds a NUL character (C cannot hold it),
/// and the master volume.
pub fn mixer_info(mixer: &MixerState) -> (r: MixerInfo)
    ensures
        r.master_volume_bits == mixer@.master_volume_bits,
        r.tracks@.len() == exported(mixer.entries()).len(),
        forall|i: int| 0 <= i < r.tracks@.len() ==> describes(#[trigger] r.tracks@[i], exported(mixer.entries())[i]),
{
    let tracks = mixer.tracks();
    let mut out: Vec<TrackInfo> = Vec::new();
    let mut i: usize = 0;
    while i < tracks.len()
        invariant
            i <= tracks@.len(),
            tracks@ == mixer.entries(),
            out@.len() == exported(tracks@.take(i as int)).len(),
            forall|k: int| 0 <= k < out@.len() ==> describes(#[trigger] out@[k], exported(tracks@.take(i as int))[k]),
        decreases tracks@.len() - i,
    {
        let e = &tracks[i];
        let keep = !has_nul(e.0.0.as_str()) && !has_nul(e.1.label.as_str());
        proof {
            let t = tracks@.take(i + 1);
            assert(t.drop_last() == tracks@.take(i as int));
            assert(t.last() == tracks@[i as int]);
            reveal(Seq::filter);
            assert(exported(t) == (if exportable(t.last()) {
                exported(t.drop_last()).push(t.last())
            } else {
                exported(t.drop_last())
            }));
        }
        if keep {
            out.push(TrackInfo {
                peer_id: e.0.0.clone(),
                label: e.1.label.clone(),
                volume_bits: e.1.volume_bits,
                pan_bits: e.1.pan_bits,
                mute: e.1.mute,
                solo: e.1.solo,
            });
        }
        i = i + 1;
    }
    assert(tracks@.take(tracks@.len() as int) == tracks@);
    MixerInfo { tracks: out, master_volume_bits: mixer.master_volume() }
}

/// Whether the audio engine runs.
#[derive(Debug, Clone, Copy, PartialEq, Eq, Structural)]
pub enum AudioState {
    Stopped,
    Running,
}

/// What a request to start the audio engine comes to, before the engine is
/// asked: refused without a runtime, already done when it runs, or a start.
#[derive(Debug, Clone, Copy, PartialEq, Eq, Structural)]
pub enum AudioStartStep {
    NotInitialized,
    AlreadyRunning,
    Start,
}

/// The audio engine's state as the C interface keeps it: whether it runs,
/// and the peak meters (`f32` bit patterns) its callback last stored.
pub struct AudioControl {
    pub state: AudioState,
    pub meter_left_bits: u32,
    pub meter_right_bits: u32,
}

impl AudioControl {
    /// Stopped, with both meters at 0.0.
    pub fn new() -> (r: Self)
        ensures
            r.state == AudioState::Stopped,
            r.meter_left_bits == 0 && r.meter_right_bits == 0,
    {
        AudioControl { state: AudioState::Stopped, meter_left_bits: 0, meter_right_bits: 0 }
    }

    /// Whether the engine runs.
    pub fn is_running(&self) -> (r: bool)
        ensures
            r == (self.state == AudioState::Running),
    {
        match self.state {
            AudioState::Running => true,
            AudioState::Stopped => false,
        }
    }

    /// The first step of a start: without a runtime the answer is
    /// `NotInitialized`; a running engine is left as it is (the answer is
    /// success); otherwise the engine is to be started.
    pub fn start_step(&self, initialized: bool) -> (r: AudioStartStep)
        ensures
            r == (if !initialized {
                AudioStartStep::NotInitialized
            } else if self.state == AudioState::Running {
                AudioStartStep::AlreadyRunning
            } else {
                AudioStartStep::Start
            }),
    {
        if !initialized {
            AudioStartStep::NotInitialized
        } else if self.is_running() {
            AudioStartStep::AlreadyRunning
        } else {
            AudioStartStep::Start
        }
    }

    /// The answer to a start request, given its first step and, for a start,
    /// whether the engine started: the engine runs after a successful start,
    /// and a failed one is an audio error that changes nothing.
    pub fn finish_start(&mut self, step: AudioStartStep, engine_started: bool) -> (r: CplpResult)
        ensures
            r == (match step {
                AudioStartStep::NotInitialized => CplpResult::NotInitialized,
                AudioStartStep::AlreadyRunning => CplpResult::Success,
                AudioStartStep::Start => if engine_started { CplpResult::Success } else { CplpResult::AudioError },
            }),
            final(self).state == (if step == AudioStartStep::Start && engine_started {
                AudioState::Running
            } else {
                old(self).state
            }),
            final(self).meter_left_bits == old(self).meter_left_bits,
            final(self).meter_right_bits == old(self).meter_right_bits,
    {
        match step {
            AudioStartStep::NotInitialized => CplpResult::NotInitialized,
            AudioStartStep::AlreadyRunning => CplpResult::Success,
            AudioStartStep::Start => {
                if engine_started {
                    self.state = AudioState::Running;
                    CplpResult::Success
                } else {
                    CplpResult::AudioError
                }
            },
        }
    }

    /// Stops the engine: without a runtime the answer is `NotInitialized`
    /// and nothing changes; otherwise the engine is stopped and both meters
    /// read 0.0.
    pub fn stop(&mut self, initialized: bool) -> (r: CplpResult)
        ensures
            !initialized ==> r == CplpResult::NotInitialized && final(self).state == old(self).state
                && final(self).meter_left_bits == old(self).meter_left_bits
                && final(self).meter_right_bits == old(self).meter_right_bits,
            initialized ==> r == CplpResult::Success && final(self).state == AudioState::Stopped
                && final(self).meter_left_bits == 0 && final(self).meter_right_bits == 0,
    {
        if !initialized {
            return CplpResult::NotInitialized;
        }
        self.state = AudioState::Stopped;
        self.meter_left_bits = 0;
        self.meter_right_bits = 0;
        CplpResult::Success
    }
}

} // verus!
