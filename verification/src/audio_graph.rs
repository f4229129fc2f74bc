//! The audio and MIDI routing graph: modules as nodes, connections as edges.
//! It is the single source of truth of the routing; views only display it.
use vstd::prelude::*;
use std::collections::{HashMap, HashSet};
use vstd::std_specs::hash::spec_hash_map_iter;
use vstd::std_specs::iter::IteratorSpec;

verus! {

broadcast use vstd::std_specs::hash::group_hash_axioms;

/// Identifier of a node.
pub type NodeId = u32;

/// Identifier of an edge.
pub type EdgeId = u32;

/// Kinds of built-in audio modules.
#[derive(Debug, Clone, Copy, PartialEq, Eq, Structural)]
pub enum AudioModuleType {
    Synthesizer,
    Looper,
    BeatMachine,
}

/// Kinds of nodes.
#[derive(Debug, Clone, PartialEq, Eq)]
pub enum NodeType {
    /// A MIDI input device.
    MidiInput,
    /// A CLAP instrument (MIDI in, audio out).
    ClapInstrument { plugin_id: String },
    /// A CLAP effect (audio in, audio out).
    ClapEffect { plugin_id: String },
    /// A built-in audio module.
    AudioModule { module_type: AudioModuleType },
    /// A mixer (many audio inputs, one output).
    Mixer,
    /// The audio output.
    Output,
}

/// A position on the scene, held as the `f32` bit patterns (`f32::to_bits`)
/// of its x and y coordinates.
#[derive(Debug, Clone, Copy, PartialEq, Eq, Structural)]
pub struct Position {
    pub x_bits: u32,
    pub y_bits: u32,
}

/// A node and its layout position.
#[derive(Debug, Clone)]
pub struct Node {
    pub id: NodeId,
    pub name: String,
    pub node_type: NodeType,
    pub position: Position,
}

/// Kinds of connections.
#[derive(Debug, Clone, Copy, PartialEq, Eq, Structural)]
pub enum EdgeType {
    /// Note on/off, control change, pitch bend.
    Midi,
    /// A stream of samples.
    Audio,
}

/// A connection from one node to another.
#[derive(Debug, Clone, Copy, PartialEq, Eq, Structural)]
pub struct Edge {
    pub id: EdgeId,
    pub from_node: NodeId,
    pub to_node: NodeId,
    pub edge_type: EdgeType,
}

/// The routing graph.
pub struct AudioGraph {
    nodes: HashMap<NodeId, Node>,
    edges: HashMap<EdgeId, Edge>,
    /// The connections present, for constant-time duplicate checks; always
    /// the keys of the edges.
    edge_set: HashSet<u128>,
    next_node_id: NodeId,
    next_edge_id: EdgeId,
}

/// The state of a graph: its nodes and edges by identifier and the
/// identifiers the next node and edge will get.
pub struct AudioGraphView {
    pub nodes: Map<NodeId, Node>,
    pub edges: Map<EdgeId, Edge>,
    pub next_node_id: NodeId,
    pub next_edge_id: EdgeId,
}

impl View for AudioGraph {
    type V = AudioGraphView;

    closed spec fn view(&self) -> AudioGraphView {
        AudioGraphView {
            nodes: self.nodes@,
            edges: self.edges@,
            next_node_id: self.next_node_id,
            next_edge_id: self.next_edge_id,
        }
    }
}

/// The number identifying a connection of a given type between two nodes.
pub open spec fn edge_key(from: NodeId, to: NodeId, t: EdgeType) -> u128 {
    (from as int * 0x2_0000_0000 + to as int * 2 + (if t == EdgeType::Audio { 1int } else { 0int })) as u128
}

proof fn lemma_edge_key_injective(f1: NodeId, t1: NodeId, k1: EdgeType, f2: NodeId, t2: NodeId, k2: EdgeType)
    requires
        edge_key(f1, t1, k1) == edge_key(f2, t2, k2),
    ensures
        f1 == f2 && t1 == t2 && k1 == k2,
{
    let b1: int = if k1 == EdgeType::Audio { 1 } else { 0 };
    let b2: int = if k2 == EdgeType::Audio { 1 } else { 0 };
    assert(f1 as int * 0x2_0000_0000 + t1 as int * 2 + b1 == f2 as int * 0x2_0000_0000 + t2 as int * 2 + b2);
    assert(f1 == f2) by (nonlinear_arith)
        requires
            f1 as int * 0x2_0000_0000 + t1 as int * 2 + b1 == f2 as int * 0x2_0000_0000 + t2 as int * 2 + b2,
            0 <= t1 <= u32::MAX,
            0 <= t2 <= u32::MAX,
            0 <= b1 <= 1,
            0 <= b2 <= 1,
    ;
    assert(t1 == t2) by (nonlinear_arith)
        requires
            t1 as int * 2 + b1 == t2 as int * 2 + b2,
            0 <= b1 <= 1,
            0 <= b2 <= 1,
    ;
}

/// The key of an edge.
pub open spec fn key_of(e: Edge) -> u128 {
    edge_key(e.from_node, e.to_node, e.edge_type)
}

/// Whether some edge of the map connects `from` to `to` with type `t`.
pub open spec fn has_connection(edges: Map<EdgeId, Edge>, from: NodeId, to: NodeId, t: EdgeType) -> bool {
    exists|id: EdgeId| #[trigger] edges.contains_key(id) && edges[id].from_node == from && edges[id].to_node == to
        && edges[id].edge_type == t
}

/// Whether an edge touches a node.
pub open spec fn touches(e: Edge, node: NodeId) -> bool {
    e.from_node == node || e.to_node == node
}

/// The invariant of a graph's state: keys match identifiers, identifiers are
/// below the next ones, every edge joins two different existing nodes, and no
/// two edges make the same connection.
pub open spec fn graph_inv(g: AudioGraphView) -> bool {
    &&& forall|id: NodeId| #[trigger] g.nodes.contains_key(id) ==> g.nodes[id].id == id && 1 <= id < g.next_node_id
    &&& forall|id: EdgeId| #[trigger] g.edges.contains_key(id) ==> {
        let e = g.edges[id];
        &&& e.id == id
        &&& 1 <= id < g.next_edge_id
        &&& e.from_node != e.to_node
        &&& g.nodes.contains_key(e.from_node)
        &&& g.nodes.contains_key(e.to_node)
    }
    &&& forall|a: EdgeId, b: EdgeId| #[trigger] g.edges.contains_key(a) && #[trigger] g.edges.contains_key(b)
        && key_of(g.edges[a]) == key_of(g.edges[b]) ==> a == b
    &&& 1 <= g.next_node_id
    &&& 1 <= g.next_edge_id
}

impl AudioGraph {
    /// What a well-formed graph keeps: [`graph_inv`] of its state.
    pub proof fn lemma_wf_graph_inv(&self)
        requires
            self.wf(),
        ensures
            graph_inv(self@),
    {
    }

    /// The graph is well formed: its state keeps [`graph_inv`] and the
    /// duplicate-check set holds exactly the keys of its edges.
    pub closed spec fn wf(&self) -> bool {
        &&& graph_inv(self@)
        &&& forall|k: u128| #[trigger] self.edge_set@.contains(k) <==> exists|id: EdgeId| #[trigger] self.edges@.contains_key(id)
            && key_of(self.edges@[id]) == k
    }

    /// An empty graph.
    pub fn new() -> (r: Self)
        ensures
            r.wf(),
            r@.nodes == Map::<NodeId, Node>::empty(),
            r@.edges == Map::<EdgeId, Edge>::empty(),
            r@.next_node_id == 1,
            r@.next_edge_id == 1,
    {
        AudioGraph {
            nodes: HashMap::new(),
            edges: HashMap::new(),
            edge_set: HashSet::new(),
            next_node_id: 1,
            next_edge_id: 1,
        }
    }

    /// Adds a node at position (0, 0) and returns its identifier.
    pub fn add_node(&mut self, name: &str, node_type: NodeType) -> (r: NodeId)
        requires
            old(self).wf(),
            old(self)@.next_node_id < u32::MAX,
        ensures
            final(self).wf(),
            r == old(self)@.next_node_id,
            final(self)@.nodes == old(self)@.nodes.insert(
                r,
                Node { id: r, name: final(self)@.nodes[r].name, node_type, position: Position { x_bits: 0, y_bits: 0 } },
            ),
            final(self)@.nodes[r].name@ == name@,
            final(self)@.edges == old(self)@.edges,
            final(self)@.next_node_id == r + 1,
            final(self)@.next_edge_id == old(self)@.next_edge_id,
    {
        let id = self.next_node_id;
        self.next_node_id = self.next_node_id + 1;
        let node = Node { id, name: String::from_str(name), node_type, position: Position { x_bits: 0, y_bits: 0 } };
        self.nodes.insert(id, node);
        id
    }

    /// The number of nodes.
    pub fn node_count(&self) -> (r: usize)
        requires
            self.wf(),
        ensures
            r == self@.nodes.len(),
    {
        self.nodes.len()
    }

    /// The number of edges.
    pub fn edge_count(&self) -> (r: usize)
        requires
            self.wf(),
        ensures
            r == self@.edges.len(),
    {
        self.edges.len()
    }

    /// The node with the given identifier.
    pub fn node(&self, id: NodeId) -> (r: Option<&Node>)
        requires
            self.wf(),
        ensures
            match r {
                Some(n) => self@.nodes.contains_key(id) && *n == self@.nodes[id],
                None => !self@.nodes.contains_key(id),
            },
    {
        self.nodes.get(&id)
    }

    /// Moves a node; `false` when there is no such node.
    pub fn set_node_position(&mut self, id: NodeId, x_bits: u32, y_bits: u32) -> (r: bool)
        requires
            old(self).wf(),
        ensures
            final(self).wf(),
            r == old(self)@.nodes.contains_key(id),
            r ==> final(self)@.nodes == old(self)@.nodes.insert(
                id,
                Node { position: Position { x_bits, y_bits }, ..old(self)@.nodes[id] },
            ),
            !r ==> final(self)@.nodes == old(self)@.nodes,
            final(self)@.edges == old(self)@.edges,
            final(self)@.next_node_id == old(self)@.next_node_id,
            final(self)@.next_edge_id == old(self)@.next_edge_id,
    {
        match self.nodes.remove(&id) {
            Some(node) => {
                let moved = Node { position: Position { x_bits, y_bits }, ..node };
                self.nodes.insert(id, moved);
                assert(self.nodes@ =~= old(self).nodes@.insert(id, moved));
                true
            },
            None => {
                assert(self.nodes@ =~= old(self).nodes@);
                false
            },
        }
    }
}


impl AudioGraph {
    /// Connects two nodes. Refused (`None`, nothing changed) when the nodes
    /// are the same, when either does not exist, or when the same connection
    /// of the same type is already there; otherwise returns the new edge's
    /// identifier.
    pub fn connect(&mut self, from: NodeId, to: NodeId, edge_type: EdgeType) -> (r: Option<EdgeId>)
        requires
            old(self).wf(),
            from != to && old(self)@.nodes.contains_key(from) && old(self)@.nodes.contains_key(to)
                && !has_connection(old(self)@.edges, from, to, edge_type) ==> old(self)@.next_edge_id < u32::MAX,
        ensures
            final(self).wf(),
            final(self)@.nodes == old(self)@.nodes,
            final(self)@.next_node_id == old(self)@.next_node_id,
            r is Some <==> (from != to && old(self)@.nodes.contains_key(from) && old(self)@.nodes.contains_key(to)
                && !has_connection(old(self)@.edges, from, to, edge_type)),
            match r {
                Some(id) => {
                    &&& id == old(self)@.next_edge_id
                    &&& !old(self)@.edges.contains_key(id)
                    &&& final(self)@.edges.len() == old(self)@.edges.len() + 1
                    &&& final(self)@.edges == old(self)@.edges.insert(
                        id,
                        Edge { id, from_node: from, to_node: to, edge_type },
                    )
                    &&& final(self)@.next_edge_id == id + 1
                },
                None => final(self)@.edges == old(self)@.edges && final(self)@.next_edge_id == old(self)@.next_edge_id,
            },
    {
        if from == to {
            return None;
        }
        if !self.nodes.contains_key(&from) || !self.nodes.contains_key(&to) {
            return None;
        }
        let bit: u128 = match edge_type {
            EdgeType::Midi => 0,
            EdgeType::Audio => 1,
        };
        let key: u128 = (from as u128) * 0x2_0000_0000 + (to as u128) * 2 + bit;
        assert(key == edge_key(from, to, edge_type));
        if self.edge_set.contains(&key) {
            proof {
                let id = choose|id: EdgeId| #[trigger] self.edges@.contains_key(id) && key_of(self.edges@[id]) == key;
                let e = self.edges@[id];
                lemma_edge_key_injective(e.from_node, e.to_node, e.edge_type, from, to, edge_type);
            }
            return None;
        }
        proof {
            if has_connection(self.edges@, from, to, edge_type) {
                let id = choose|id: EdgeId| #[trigger] self.edges@.contains_key(id) && self.edges@[id].from_node == from
                    && self.edges@[id].to_node == to && self.edges@[id].edge_type == edge_type;
                assert(key_of(self.edges@[id]) == key);
            }
        }
        self.edge_set.insert(key);
        let id = self.next_edge_id;
        self.next_edge_id = self.next_edge_id + 1;
        let edge = Edge { id, from_node: from, to_node: to, edge_type };
        self.edges.insert(id, edge);
        proof {
            assert forall|a: EdgeId, b: EdgeId| #[trigger] self.edges@.contains_key(a) && #[trigger] self.edges@.contains_key(b)
                && key_of(self.edges@[a]) == key_of(self.edges@[b]) implies a == b by {
                if a == id && b != id {
                    assert(old(self).edges@.contains_key(b));
                    assert(old(self).edge_set@.contains(key_of(self.edges@[b])));
                } else if b == id && a != id {
                    assert(old(self).edges@.contains_key(a));
                    assert(old(self).edge_set@.contains(key_of(self.edges@[a])));
                }
            }
            assert forall|k: u128| #[trigger] self.edge_set@.contains(k) <==> exists|i: EdgeId| #[trigger] self.edges@.contains_key(i)
                && key_of(self.edges@[i]) == k by {
                if self.edge_set@.contains(k) {
                    if k == key {
                        assert(self.edges@.contains_key(id) && key_of(self.edges@[id]) == k);
                    } else {
                        let i = choose|i: EdgeId| #[trigger] old(self).edges@.contains_key(i) && key_of(old(self).edges@[i]) == k;
                        assert(self.edges@.contains_key(i) && key_of(self.edges@[i]) == k);
                    }
                }
                if exists|i: EdgeId| #[trigger] self.edges@.contains_key(i) && key_of(self.edges@[i]) == k {
                    let i = choose|i: EdgeId| #[trigger] self.edges@.contains_key(i) && key_of(self.edges@[i]) == k;
                    if i != id {
                        assert(old(self).edges@.contains_key(i));
                    }
                }
            }
        }
        Some(id)
    }

    /// Removes an edge; `false` when there is no such edge.
    pub fn disconnect(&mut self, edge_id: EdgeId) -> (r: bool)
        requires
            old(self).wf(),
        ensures
            final(self).wf(),
            r == old(self)@.edges.contains_key(edge_id),
            final(self)@.edges == old(self)@.edges.remove(edge_id),
            final(self)@.nodes == old(self)@.nodes,
            final(self)@.next_node_id == old(self)@.next_node_id,
            final(self)@.next_edge_id == old(self)@.next_edge_id,
    {
        match self.edges.remove(&edge_id) {
            Some(edge) => {
                let bit: u128 = match edge.edge_type {
                    EdgeType::Midi => 0,
                    EdgeType::Audio => 1,
                };
                let key: u128 = (edge.from_node as u128) * 0x2_0000_0000 + (edge.to_node as u128) * 2 + bit;
                assert(key == key_of(edge));
                self.edge_set.remove(&key);
                proof {
                    assert forall|k: u128| #[trigger] self.edge_set@.contains(k) <==> exists|i: EdgeId| #[trigger] self.edges@.contains_key(i)
                        && key_of(self.edges@[i]) == k by {
                        if self.edge_set@.contains(k) {
                            let i = choose|i: EdgeId| #[trigger] old(self).edges@.contains_key(i) && key_of(old(self).edges@[i]) == k;
                            assert(i != edge_id);
                            assert(self.edges@.contains_key(i));
                        }
                        if exists|i: EdgeId| #[trigger] self.edges@.contains_key(i) && key_of(self.edges@[i]) == k {
                            let i = choose|i: EdgeId| #[trigger] self.edges@.contains_key(i) && key_of(self.edges@[i]) == k;
                            assert(old(self).edges@.contains_key(i) && old(self).edges@.contains_key(edge_id));
                            assert(old(self).edge_set@.contains(k));
                        }
                    }
                }
                true
            },
            None => {
                assert(old(self).edges@.remove(edge_id) =~= old(self).edges@);
                false
            },
        }
    }
}


/// The edges of a map that do not touch a node.
pub open spec fn edges_without(edges: Map<EdgeId, Edge>, node: NodeId) -> Map<EdgeId, Edge> {
    edges.restrict(Set::new(|e: EdgeId| !touches(edges[e], node)))
}

impl AudioGraph {
    /// The identifiers of the edges touching a node, each once.
    fn incident_edge_ids(&self, id: NodeId) -> (r: Vec<EdgeId>)
        requires
            self.wf(),
        ensures
            forall|e: EdgeId| #[trigger] r@.contains(e) <==> (self@.edges.contains_key(e) && touches(self@.edges[e], id)),
    {
        let mut doomed: Vec<EdgeId> = Vec::new();
        for pair in it: self.edges.iter()
            invariant
                self.wf(),
                forall|e: EdgeId| #[trigger] doomed@.contains(e) ==> self@.edges.contains_key(e) && touches(self@.edges[e], id),
                forall|j: int| 0 <= j < it.index() && touches(*it.seq()[j].1, id) ==> doomed@.contains(*it.seq()[j].0),
                it.seq() == spec_hash_map_iter(&self.edges).remaining(),
        {
            let (eid, e) = pair;
            proof {
                let v = spec_hash_map_iter(&self.edges).remaining();
                assert(pair == it.seq()[it.index() as int]);
                assert(self.edges@.contains_key(*v[it.index() as int].0));
            }
            let ghost i0 = it.index() as int;
            let ghost d0 = doomed@;
            if e.from_node == id || e.to_node == id {
                doomed.push(*eid);
            }
            proof {
                assert forall|x: EdgeId| #[trigger] doomed@.contains(x) implies self@.edges.contains_key(x) && touches(self@.edges[x], id) by {
                    if x != *eid {
                        assert(d0.contains(x));
                    }
                }
                assert forall|j: int| 0 <= j < i0 + 1 && touches(*it.seq()[j].1, id) implies doomed@.contains(*it.seq()[j].0) by {
                    if j < i0 {
                        assert(d0.contains(*it.seq()[j].0));
                        let k = choose|k: int| 0 <= k < d0.len() && d0[k] == *it.seq()[j].0;
                        assert(doomed@[k] == d0[k]);
                    } else {
                        assert(it.seq()[j] == pair);
                        assert(*it.seq()[j].1 == *e);
                        assert(touches(*e, id));
                        assert(doomed@ == d0.push(*eid));
                        assert(doomed@[doomed@.len() - 1] == *it.seq()[j].0);
                        assert(doomed@.contains(*it.seq()[j].0));
                    }
                }
            }
        }
        proof {
            let v = spec_hash_map_iter(&self.edges).remaining();
            assert forall|e: EdgeId| self@.edges.contains_key(e) && touches(self@.edges[e], id) implies #[trigger] doomed@.contains(e) by {
                assert(v.contains((&e, &self.edges@[e])));
                let j = choose|j: int| 0 <= j < v.len() && v[j] == (&e, &self.edges@[e]);
            }
        }
        doomed
    }
}


impl AudioGraph {
    /// Removes a node together with every edge touching it; `false` (nothing
    /// changed) when there is no such node.
    pub fn remove_node(&mut self, id: NodeId) -> (r: bool)
        requires
            old(self).wf(),
        ensures
            final(self).wf(),
            r == old(self)@.nodes.contains_key(id),
            final(self)@.nodes == old(self)@.nodes.remove(id),
            final(self)@.edges == edges_without(old(self)@.edges, id),
            !r ==> final(self)@.nodes == old(self)@.nodes && final(self)@.edges == old(self)@.edges,
            final(self)@.next_node_id == old(self)@.next_node_id,
            final(self)@.next_edge_id == old(self)@.next_edge_id,
    {
        if !self.nodes.contains_key(&id) {
            proof {
                assert(edges_without(self@.edges, id) =~= self@.edges);
                assert(self@.nodes.remove(id) =~= self@.nodes);
            }
            return false;
        }
        let doomed = self.incident_edge_ids(id);
        self.nodes.remove(&id);
        let ghost old_edges = old(self)@.edges;
        let mut k: usize = 0;
        while k < doomed.len()
            invariant
                k <= doomed@.len(),
                forall|e: EdgeId| #[trigger] doomed@.contains(e) <==> (old_edges.contains_key(e) && touches(old_edges[e], id)),
                self.edges@ == old_edges.remove_keys(doomed@.take(k as int).to_set()),
                self.nodes@ == old(self)@.nodes.remove(id),
                self.next_node_id == old(self)@.next_node_id,
                self.next_edge_id == old(self)@.next_edge_id,
                graph_inv(old(self)@),
                old_edges == old(self)@.edges,
                forall|key: u128| #[trigger] self.edge_set@.contains(key) <==> exists|i: EdgeId| #[trigger] self.edges@.contains_key(i)
                    && key_of(self.edges@[i]) == key,
            decreases doomed@.len() - k,
        {
            let eid = doomed[k];
            let ghost before = self.edges@;
            match self.edges.remove(&eid) {
                Some(edge) => {
                    let bit: u128 = match edge.edge_type {
                        EdgeType::Midi => 0,
                        EdgeType::Audio => 1,
                    };
                    let key: u128 = (edge.from_node as u128) * 0x2_0000_0000 + (edge.to_node as u128) * 2 + bit;
                    assert(key == key_of(edge));
                    self.edge_set.remove(&key);
                    proof {
                        assert forall|kk: u128| #[trigger] self.edge_set@.contains(kk) <==> exists|i: EdgeId| #[trigger] self.edges@.contains_key(i)
                            && key_of(self.edges@[i]) == kk by {
                            if self.edge_set@.contains(kk) {
                                let i = choose|i: EdgeId| #[trigger] before.contains_key(i) && key_of(before[i]) == kk;
                                assert(i != eid);
                                assert(self.edges@.contains_key(i));
                            }
                            if exists|i: EdgeId| #[trigger] self.edges@.contains_key(i) && key_of(self.edges@[i]) == kk {
                                let i = choose|i: EdgeId| #[trigger] self.edges@.contains_key(i) && key_of(self.edges@[i]) == kk;
                                assert(before.contains_key(i));
                                assert(old_edges.contains_key(i) && old_edges.contains_key(eid));
                                assert(i != eid);
                            }
                        }
                    }
                },
                None => {
                    assert(self.edges@ =~= before);
                },
            }
            proof {
                assert(doomed@.take(k + 1).to_set() =~= doomed@.take(k as int).to_set().insert(eid)) by {
                    assert(doomed@.take(k + 1) == doomed@.take(k as int).push(eid));
                    assert forall|x: EdgeId| doomed@.take(k + 1).contains(x) <==> (doomed@.take(k as int).contains(x) || x == eid) by {
                        if doomed@.take(k + 1).contains(x) {
                            let j = choose|j: int| 0 <= j < k + 1 && #[trigger] doomed@.take(k + 1)[j] == x;
                            if j < k {
                                assert(doomed@.take(k as int)[j] == x);
                            }
                        }
                        if doomed@.take(k as int).contains(x) {
                            let j = choose|j: int| 0 <= j < k && #[trigger] doomed@.take(k as int)[j] == x;
                            assert(doomed@.take(k + 1)[j] == x);
                        }
                        if x == eid {
                            assert(doomed@.take(k + 1)[k as int] == x);
                        }
                    }
                }
                assert(self.edges@ =~= old_edges.remove_keys(doomed@.take(k + 1).to_set()));
            }
            k = k + 1;
        }
        proof {
            assert(doomed@.take(doomed@.len() as int) == doomed@);
            assert forall|e: EdgeId| doomed@.to_set().contains(e) <==> #[trigger] doomed@.contains(e) by {}
            assert(self.edges@ =~= edges_without(old_edges, id));
            assert forall|i: EdgeId| #[trigger] self.edges@.contains_key(i) implies {
                let e = self.edges@[i];
                &&& e.id == i
                &&& 1 <= i < self.next_edge_id
                &&& e.from_node != e.to_node
                &&& self.nodes@.contains_key(e.from_node)
                &&& self.nodes@.contains_key(e.to_node)
            } by {
                assert(old_edges.contains_key(i));
                assert(!touches(old_edges[i], id));
            }
        }
        true
    }
}


/// Whether an edge of the map ends at (`by_target`) or starts from a node.
pub open spec fn selected(e: Edge, node: NodeId, by_target: bool) -> bool {
    if by_target {
        e.to_node == node
    } else {
        e.from_node == node
    }
}

/// The node is one of the map's nodes.
pub open spec fn is_node_of(nodes: Map<NodeId, Node>, n: Node) -> bool {
    nodes.contains_key(n.id) && nodes[n.id] == n
}

/// A copy of a node type.
fn copy_node_type(t: &NodeType) -> (r: NodeType)
    ensures
        r == *t,
{
    match t {
        NodeType::MidiInput => NodeType::MidiInput,
        NodeType::ClapInstrument { plugin_id } => NodeType::ClapInstrument { plugin_id: plugin_id.clone() },
        NodeType::ClapEffect { plugin_id } => NodeType::ClapEffect { plugin_id: plugin_id.clone() },
        NodeType::AudioModule { module_type } => NodeType::AudioModule { module_type: *module_type },
        NodeType::Mixer => NodeType::Mixer,
        NodeType::Output => NodeType::Output,
    }
}

/// A copy of a node.
fn copy_node(n: &Node) -> (r: Node)
    ensures
        r == *n,
{
    Node { id: n.id, name: n.name.clone(), node_type: copy_node_type(&n.node_type), position: n.position }
}

/// Every edge when `all`, else as [`selected`].
pub open spec fn picked(e: Edge, node: NodeId, by_target: bool, all: bool) -> bool {
    all || selected(e, node, by_target)
}

/// The edge is one of the map's edges.
pub open spec fn is_edge_of(edges: Map<EdgeId, Edge>, e: Edge) -> bool {
    edges.contains_key(e.id) && edges[e.id] == e
}

impl AudioGraph {
    fn select_edges(&self, node: NodeId, by_target: bool, all: bool) -> (r: Vec<Edge>)
        requires
            self.wf(),
        ensures
            r@.no_duplicates(),
            forall|e: Edge| #[trigger] r@.contains(e) <==> (is_edge_of(self@.edges, e) && picked(e, node, by_target, all)),
    {
        let mut out: Vec<Edge> = Vec::new();
        for pair in it: self.edges.iter()
            invariant
                self.wf(),
                it.seq() == spec_hash_map_iter(&self.edges).remaining(),
                it.seq().no_duplicates(),
                out@.no_duplicates(),
                forall|x: Edge| #[trigger] out@.contains(x) ==> is_edge_of(self@.edges, x) && picked(x, node, by_target, all),
                forall|x: Edge| #[trigger] out@.contains(x) ==> exists|j: int| 0 <= j < it.index() && *it.seq()[j].1 == x,
                forall|j: int| 0 <= j < it.index() && picked(*it.seq()[j].1, node, by_target, all) ==> out@.contains(*it.seq()[j].1),
        {
            let (eid, e) = pair;
            let ghost i0 = it.index() as int;
            let ghost o0 = out@;
            proof {
                assert(pair == it.seq()[i0]);
                assert(self.edges@.contains_key(*it.seq()[i0].0));
            }
            let hit = if all {
                true
            } else if by_target {
                e.to_node == node
            } else {
                e.from_node == node
            };
            if hit {
                proof {
                    if o0.contains(*e) {
                        let j = choose|j: int| 0 <= j < i0 && *it.seq()[j].1 == *e;
                        assert(self.edges@.contains_key(*it.seq()[j].0));
                        assert(*it.seq()[j].0 == e.id);
                        assert(it.seq()[j] == it.seq()[i0]);
                    }
                }
                out.push(*e);
            }
            proof {
                assert forall|x: Edge| #[trigger] out@.contains(x) implies is_edge_of(self@.edges, x) && picked(x, node, by_target, all)
                    && exists|j: int| 0 <= j < i0 + 1 && *it.seq()[j].1 == x by {
                    if x != *e || !hit {
                        assert(o0.contains(x)) by {
                            let q = choose|q: int| 0 <= q < out@.len() && out@[q] == x;
                            assert(o0[q] == x);
                        }
                    } else {
                        assert(*it.seq()[i0].1 == x);
                    }
                }
                assert forall|j: int| 0 <= j < i0 + 1 && picked(*it.seq()[j].1, node, by_target, all) implies out@.contains(*it.seq()[j].1) by {
                    if j < i0 {
                        let q = choose|q: int| 0 <= q < o0.len() && o0[q] == *it.seq()[j].1;
                        assert(out@[q] == o0[q]);
                    } else {
                        assert(out@[out@.len() - 1] == *e);
                    }
                }
            }
        }
        proof {
            let v = spec_hash_map_iter(&self.edges).remaining();
            assert forall|x: Edge| is_edge_of(self@.edges, x) && picked(x, node, by_target, all) implies #[trigger] out@.contains(x) by {
                assert(v.contains((&x.id, &self.edges@[x.id])));
                let j = choose|j: int| 0 <= j < v.len() && v[j] == (&x.id, &self.edges@[x.id]);
            }
        }
        out
    }


    /// Every node, each once, in no particular order.
    pub fn nodes(&self) -> (r: Vec<Node>)
        requires
            self.wf(),
        ensures
            r@.no_duplicates(),
            forall|n: Node| #[trigger] r@.contains(n) <==> is_node_of(self@.nodes, n),
    {
        let mut out: Vec<Node> = Vec::new();
        for pair in it: self.nodes.iter()
            invariant
                self.wf(),
                it.seq() == spec_hash_map_iter(&self.nodes).remaining(),
                it.seq().no_duplicates(),
                out@.no_duplicates(),
                forall|x: Node| #[trigger] out@.contains(x) ==> is_node_of(self@.nodes, x),
                forall|x: Node| #[trigger] out@.contains(x) ==> exists|j: int| 0 <= j < it.index() && *it.seq()[j].1 == x,
                forall|j: int| 0 <= j < it.index() ==> out@.contains(*it.seq()[j].1),
        {
            let (_, e) = pair;
            let ghost i0 = it.index() as int;
            let ghost o0 = out@;
            proof {
                assert(pair == it.seq()[i0]);
                assert(self.nodes@.contains_key(*it.seq()[i0].0));
            }
            proof {
                if o0.contains(*e) {
                    let j = choose|j: int| 0 <= j < i0 && *it.seq()[j].1 == *e;
                    assert(self.nodes@.contains_key(*it.seq()[j].0));
                    assert(*it.seq()[j].0 == e.id);
                    assert(it.seq()[j] == it.seq()[i0]);
                }
            }
            out.push(copy_node(e));
            proof {
                assert forall|x: Node| #[trigger] out@.contains(x) implies is_node_of(self@.nodes, x)
                    && exists|j: int| 0 <= j < i0 + 1 && *it.seq()[j].1 == x by {
                    if x != *e {
                        assert(o0.contains(x)) by {
                            let q = choose|q: int| 0 <= q < out@.len() && out@[q] == x;
                            assert(o0[q] == x);
                        }
                    } else {
                        assert(*it.seq()[i0].1 == x);
                    }
                }
                assert forall|j: int| 0 <= j < i0 + 1 implies out@.contains(*it.seq()[j].1) by {
                    if j < i0 {
                        let q = choose|q: int| 0 <= q < o0.len() && o0[q] == *it.seq()[j].1;
                        assert(out@[q] == o0[q]);
                    } else {
                        assert(out@[out@.len() - 1] == *e);
                    }
                }
            }
        }
        proof {
            let v = spec_hash_map_iter(&self.nodes).remaining();
            assert forall|x: Node| is_node_of(self@.nodes, x) implies #[trigger] out@.contains(x) by {
                assert(v.contains((&x.id, &self.nodes@[x.id])));
                let j = choose|j: int| 0 <= j < v.len() && v[j] == (&x.id, &self.nodes@[x.id]);
            }
        }
        out
    }

    /// Every edge, each once, in no particular order.
    pub fn edges(&self) -> (r: Vec<Edge>)
        requires
            self.wf(),
        ensures
            r@.no_duplicates(),
            forall|e: Edge| #[trigger] r@.contains(e) <==> is_edge_of(self@.edges, e),
    {
        self.select_edges(0, false, true)
    }

    /// The edges ending at a node, each once, in no particular order.
    pub fn incoming_edges(&self, node_id: NodeId) -> (r: Vec<Edge>)
        requires
            self.wf(),
        ensures
            r@.no_duplicates(),
            forall|e: Edge| #[trigger] r@.contains(e) <==> (is_edge_of(self@.edges, e) && e.to_node == node_id),
    {
        self.select_edges(node_id, true, false)
    }

    /// The edges starting from a node, each once, in no particular order.
    pub fn outgoing_edges(&self, node_id: NodeId) -> (r: Vec<Edge>)
        requires
            self.wf(),
        ensures
            r@.no_duplicates(),
            forall|e: Edge| #[trigger] r@.contains(e) <==> (is_edge_of(self@.edges, e) && e.from_node == node_id),
    {
        self.select_edges(node_id, false, false)
    }
}


impl AudioGraph {
    /// The default set-up: Keystage (MIDI input) → Synth (built-in
    /// synthesizer) → Mixer → Output, laid out left to right at y = 300,
    /// with identifiers 1 to 4; the MIDI edge is 1, the audio edges 2 and 3.
    pub fn default_setup() -> (r: Self)
        ensures
            r.wf(),
            r@.nodes.dom() == set![1u32, 2, 3, 4],
            r@.nodes[1].name@ == "Keystage"@ && r@.nodes[1].node_type == NodeType::MidiInput
                && r@.nodes[1].position == (Position { x_bits: 0x42C8_0000, y_bits: 0x4396_0000 }),
            r@.nodes[2].name@ == "Synth"@ && r@.nodes[2].node_type == (NodeType::AudioModule {
                module_type: AudioModuleType::Synthesizer,
            }) && r@.nodes[2].position == (Position { x_bits: 0x43C8_0000, y_bits: 0x4396_0000 }),
            r@.nodes[3].name@ == "Mixer"@ && r@.nodes[3].node_type == NodeType::Mixer
                && r@.nodes[3].position == (Position { x_bits: 0x442F_0000, y_bits: 0x4396_0000 }),
            r@.nodes[4].name@ == "Output"@ && r@.nodes[4].node_type == NodeType::Output
                && r@.nodes[4].position == (Position { x_bits: 0x447A_0000, y_bits: 0x4396_0000 }),
            r@.edges == map![
                1u32 => Edge { id: 1, from_node: 1, to_node: 2, edge_type: EdgeType::Midi },
                2u32 => Edge { id: 2, from_node: 2, to_node: 3, edge_type: EdgeType::Audio },
                3u32 => Edge { id: 3, from_node: 3, to_node: 4, edge_type: EdgeType::Audio },
            ],
            r@.next_node_id == 5,
            r@.next_edge_id == 4,
    {
        let mut graph = AudioGraph::new();
        let keystage = graph.add_node("Keystage", NodeType::MidiInput);
        let synth = graph.add_node("Synth", NodeType::AudioModule { module_type: AudioModuleType::Synthesizer });
        let mixer = graph.add_node("Mixer", NodeType::Mixer);
        let output = graph.add_node("Output", NodeType::Output);
        graph.set_node_position(keystage, 0x42C8_0000, 0x4396_0000);
        graph.set_node_position(synth, 0x43C8_0000, 0x4396_0000);
        graph.set_node_position(mixer, 0x442F_0000, 0x4396_0000);
        graph.set_node_position(output, 0x447A_0000, 0x4396_0000);
        let e1 = graph.connect(keystage, synth, EdgeType::Midi);
        let e2 = graph.connect(synth, mixer, EdgeType::Audio);
        let e3 = graph.connect(mixer, output, EdgeType::Audio);
        assert(graph@.nodes.dom() =~= set![1u32, 2, 3, 4]);
        assert(graph@.edges =~= map![
            1u32 => Edge { id: 1, from_node: 1, to_node: 2, edge_type: EdgeType::Midi },
            2u32 => Edge { id: 2, from_node: 2, to_node: 3, edge_type: EdgeType::Audio },
            3u32 => Edge { id: 3, from_node: 3, to_node: 4, edge_type: EdgeType::Audio },
        ]);
        graph
    }
}

impl Default for AudioGraph {
    fn default() -> (r: Self)
        ensures
            r.wf(),
            r@.nodes == Map::<NodeId, Node>::empty(),
            r@.edges == Map::<EdgeId, Edge>::empty(),
            r@.next_node_id == 1,
            r@.next_edge_id == 1,
    {
        AudioGraph::new()
    }
}


/// Disconnecting the edge that a successful connect created gives back the
/// edges that were there before.
pub proof fn law_connect_then_disconnect(g: AudioGraphView, e: Edge)
    requires
        graph_inv(g),
        e.id == g.next_edge_id,
    ensures
        g.edges.insert(e.id, e).remove(e.id) == g.edges,
{
    assert(!g.edges.contains_key(e.id));
    assert(g.edges.insert(e.id, e).remove(e.id) =~= g.edges);
}

/// Once a connection has been made, making it again is refused.
pub proof fn law_connection_is_made_once(edges: Map<EdgeId, Edge>, id: EdgeId, from: NodeId, to: NodeId, t: EdgeType)
    ensures
        has_connection(edges.insert(id, Edge { id, from_node: from, to_node: to, edge_type: t }), from, to, t),
{
    let m = edges.insert(id, Edge { id, from_node: from, to_node: to, edge_type: t });
    assert(m.contains_key(id));
}

/// After an edge is removed, its connection can be made again.
pub proof fn law_disconnect_allows_reconnect(g: AudioGraphView, id: EdgeId)
    requires
        graph_inv(g),
        g.edges.contains_key(id),
    ensures
        !has_connection(g.edges.remove(id), g.edges[id].from_node, g.edges[id].to_node, g.edges[id].edge_type),
{
    let e = g.edges[id];
    let m = g.edges.remove(id);
    if has_connection(m, e.from_node, e.to_node, e.edge_type) {
        let other = choose|o: EdgeId| #[trigger] m.contains_key(o) && m[o].from_node == e.from_node && m[o].to_node == e.to_node
            && m[o].edge_type == e.edge_type;
        assert(g.edges.contains_key(other));
        assert(key_of(g.edges[other]) == key_of(g.edges[id]));
    }
}

/// No edge left after a node is removed touches that node.
pub proof fn law_removed_node_has_no_edges(edges: Map<EdgeId, Edge>, node: NodeId)
    ensures
        forall|id: EdgeId| #[trigger] edges_without(edges, node).contains_key(id) ==> !touches(edges_without(edges, node)[id], node),
{
}

} // verus!
