use cplp::audio_graph::{AudioGraph, EdgeType, NodeType};

#[test]
fn add_and_remove_nodes() {
    let mut graph = AudioGraph::new();
    let id = graph.add_node("Test", NodeType::MidiInput);
    assert_eq!(graph.node_count(), 1);
    assert!(graph.remove_node(id));
    assert_eq!(graph.node_count(), 0);
}

#[test]
fn connect_and_disconnect() {
    let mut graph = AudioGraph::new();
    let a = graph.add_node("A", NodeType::MidiInput);
    let b = graph.add_node("B", NodeType::Mixer);
    let edge = graph.connect(a, b, EdgeType::Midi);
    assert!(edge.is_some());
    assert_eq!(graph.edge_count(), 1);
    assert!(graph.connect(a, b, EdgeType::Midi).is_none());
    assert!(graph.disconnect(edge.unwrap()));
    assert_eq!(graph.edge_count(), 0);
}

#[test]
fn remove_node_removes_edges() {
    let mut graph = AudioGraph::new();
    let a = graph.add_node("A", NodeType::MidiInput);
    let b = graph.add_node("B", NodeType::Mixer);
    graph.connect(a, b, EdgeType::Audio);
    assert_eq!(graph.edge_count(), 1);
    graph.remove_node(a);
    assert_eq!(graph.edge_count(), 0);
}

#[test]
fn connect_nonexistent_node_returns_none() {
    let mut graph = AudioGraph::new();
    let a = graph.add_node("A", NodeType::MidiInput);
    assert!(graph.connect(a, 999, EdgeType::Midi).is_none());
}

#[test]
fn default_setup_has_correct_structure() {
    let graph = AudioGraph::default_setup();
    assert_eq!(graph.node_count(), 4);
    assert_eq!(graph.edge_count(), 3);
}

#[test]
fn incoming_outgoing_edges() {
    let mut graph = AudioGraph::new();
    let a = graph.add_node("A", NodeType::MidiInput);
    let b = graph.add_node("B", NodeType::Mixer);
    let c = graph.add_node("C", NodeType::Output);
    graph.connect(a, b, EdgeType::Midi);
    graph.connect(b, c, EdgeType::Audio);
    assert_eq!(graph.incoming_edges(b).len(), 1);
    assert_eq!(graph.outgoing_edges(b).len(), 1);
    assert_eq!(graph.incoming_edges(a).len(), 0);
    assert_eq!(graph.outgoing_edges(c).len(), 0);
}

#[test]
fn self_loop_rejected() {
    let mut graph = AudioGraph::new();
    let a = graph.add_node("A", NodeType::Mixer);
    assert!(graph.connect(a, a, EdgeType::Audio).is_none());
    assert_eq!(graph.edge_count(), 0);
}

#[test]
fn disconnect_then_reconnect() {
    let mut graph = AudioGraph::new();
    let a = graph.add_node("A", NodeType::MidiInput);
    let b = graph.add_node("B", NodeType::Mixer);
    let edge = graph.connect(a, b, EdgeType::Midi).unwrap();
    graph.disconnect(edge);
    assert!(graph.connect(a, b, EdgeType::Midi).is_some());
}

#[test]
fn same_nodes_may_connect_once_per_type() {
    let mut graph = AudioGraph::new();
    let a = graph.add_node("A", NodeType::Mixer);
    let b = graph.add_node("B", NodeType::Output);
    assert!(graph.connect(a, b, EdgeType::Midi).is_some());
    assert!(graph.connect(a, b, EdgeType::Audio).is_some());
    assert!(graph.connect(b, a, EdgeType::Audio).is_some());
    assert_eq!(graph.edge_count(), 3);
}

#[test]
fn node_position_and_lookup() {
    let mut graph = AudioGraph::new();
    let a = graph.add_node("Synth", NodeType::ClapInstrument { plugin_id: "com.x".into() });
    assert_eq!(a, 1);
    assert!(graph.set_node_position(a, 10.0f32.to_bits(), 20.0f32.to_bits()));
    let n = graph.node(a).unwrap();
    assert_eq!(n.name, "Synth");
    assert_eq!(n.position.x_bits, 10.0f32.to_bits());
    assert!(!graph.set_node_position(77, 0, 0));
    assert!(graph.node(77).is_none());
    assert!(!graph.remove_node(77));
    assert!(!graph.disconnect(5));
}

#[test]
fn nodes_and_edges_list_the_graph() {
    let g = AudioGraph::default_setup();
    let mut ids: Vec<u32> = g.nodes().iter().map(|n| n.id).collect();
    ids.sort();
    assert_eq!(ids, vec![1, 2, 3, 4]);
    let names: Vec<String> = {
        let mut v: Vec<String> = g.nodes().iter().map(|n| n.name.clone()).collect();
        v.sort();
        v
    };
    assert_eq!(names, vec!["Keystage", "Mixer", "Output", "Synth"]);
    let mut edges: Vec<(u32, u32, u32)> = g.edges().iter().map(|e| (e.id, e.from_node, e.to_node)).collect();
    edges.sort();
    assert_eq!(edges, vec![(1, 1, 2), (2, 2, 3), (3, 3, 4)]);
}

#[test]
fn removing_a_missing_node_changes_nothing() {
    let mut g = AudioGraph::default_setup();
    assert!(!g.remove_node(99));
    assert_eq!(g.node_count(), 4);
    assert_eq!(g.edge_count(), 3);
}
