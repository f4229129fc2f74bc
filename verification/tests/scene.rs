use cplp::scene::{build_draw_calls, DrawCall, MeshHandle, NodeId, NodeKind, SceneGraph, Transform};

fn pos(x: f32, y: f32, z: f32) -> [u32; 3] {
    [x.to_bits(), y.to_bits(), z.to_bits()]
}

#[test]
fn add_and_remove_node() {
    let mut graph = SceneGraph::new();
    let id = graph.add_node(
        NodeKind::RackUnit { name: "Surge XT".into(), active: true, rack_units: 2 },
        Transform::at(pos(0.0, 0.0, -1.0)),
    );
    assert_eq!(graph.nodes().len(), 1);
    graph.remove_node(id);
    assert!(graph.nodes().is_empty());
    assert!(graph.get(id).is_none());
}

#[test]
fn get_returns_correct_node() {
    let mut graph = SceneGraph::new();
    let id = graph.add_node(NodeKind::Background, Transform::at(pos(1.0, 2.0, 3.0)));
    let node = graph.get(id).unwrap();
    assert_eq!(node.transform.position, pos(1.0, 2.0, 3.0));
}

#[test]
fn remove_updates_lookup_for_swapped_node() {
    let mut graph = SceneGraph::new();
    let a = graph.add_node(NodeKind::Background, Transform::default());
    let b = graph.add_node(NodeKind::Background, Transform::default());
    let c = graph.add_node(NodeKind::Background, Transform::default());
    // Removing a moves c to the first position.
    graph.remove_node(a);
    assert!(graph.get(a).is_none());
    assert!(graph.get(b).is_some());
    assert!(graph.get(c).is_some());
    assert_eq!(graph.get(c).unwrap().id, c);
    assert_eq!(graph.nodes()[0].id, c);
}

#[test]
fn cable_references_nodes() {
    let mut graph = SceneGraph::new();
    let a = graph.add_node(NodeKind::Background, Transform::default());
    let b = graph.add_node(NodeKind::Background, Transform::default());
    let cable_id = graph.add_node(NodeKind::Cable { from: a, to: b }, Transform::default());
    let node = graph.get(cable_id).unwrap();
    assert!(matches!(node.kind, NodeKind::Cable { .. }));
}

#[test]
fn identifiers_are_never_reused() {
    let mut graph = SceneGraph::new();
    let a = graph.add_node(NodeKind::Background, Transform::default());
    graph.remove_node(a);
    graph.clear();
    let b = graph.add_node(NodeKind::Background, Transform::default());
    assert_eq!(a, NodeId(0));
    assert_eq!(b, NodeId(1));
    graph.remove_node(NodeId(42));
    assert_eq!(graph.nodes().len(), 1);
}

#[test]
fn get_mut_changes_the_node_in_place() {
    let mut graph = SceneGraph::default();
    let a = graph.add_node(NodeKind::Background, Transform::default());
    graph.get_mut(a).unwrap().transform = Transform::at(pos(5.0, 0.0, 0.0));
    assert_eq!(graph.get(a).unwrap().transform.position, pos(5.0, 0.0, 0.0));
    assert!(graph.get_mut(NodeId(7)).is_none());
}

#[test]
fn default_transform_is_identity() {
    let t = Transform::default();
    assert_eq!(t.position, pos(0.0, 0.0, 0.0));
    assert_eq!(t.rotation, [0.0f32.to_bits(), 0.0f32.to_bits(), 0.0f32.to_bits(), 1.0f32.to_bits()]);
    assert_eq!(t.scale, pos(1.0, 1.0, 1.0));
}

#[test]
fn build_draw_calls_maps_node_to_mesh() {
    let mut graph = SceneGraph::new();
    let id = graph.add_node(NodeKind::Background, Transform::at(pos(1.0, 2.0, 3.0)));
    let handle = MeshHandle(42);
    let calls = build_draw_calls(&[(id, handle)], &graph);
    assert_eq!(calls.len(), 1);
    assert_eq!(calls[0].mesh, handle);
    assert_eq!(calls[0].transform[3], [1.0f32.to_bits(), 2.0f32.to_bits(), 3.0f32.to_bits(), 1.0f32.to_bits()]);
    assert_eq!(calls[0].transform[0], [1.0f32.to_bits(), 0, 0, 0]);
}

#[test]
fn build_draw_calls_skips_missing_nodes() {
    let graph = SceneGraph::new();
    let handle = MeshHandle(0);
    let calls = build_draw_calls(&[(NodeId(99), handle)], &graph);
    assert!(calls.is_empty());
}

#[test]
fn identity_draw_call() {
    let call = DrawCall::identity(MeshHandle(3));
    assert_eq!(call.mesh, MeshHandle(3));
    let one = 1.0f32.to_bits();
    assert_eq!(call.transform, [[one, 0, 0, 0], [0, one, 0, 0], [0, 0, one, 0], [0, 0, 0, one]]);
}
