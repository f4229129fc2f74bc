//! The gig scene: racks, cables and a background, held as a graph of nodes
//! with no tie to any GPU. Coordinates are `f32` values held by their bit
//! patterns (`f32::to_bits`); nothing here computes on them.
use vstd::prelude::*;
use std::collections::HashMap;

verus! {

broadcast use vstd::std_specs::hash::group_hash_axioms;

/// The bit pattern of `0.0f32`.
pub const ZERO_BITS: u32 = 0x0000_0000;

/// The bit pattern of `1.0f32`.
pub const ONE_BITS: u32 = 0x3F80_0000;

/// The identifier of a scene node.
#[derive(Debug, Clone, Copy, PartialEq, Eq, Structural, Hash)]
pub struct NodeId(pub u32);

/// Position, rotation (a quaternion x, y, z, w) and scale of a node, each
/// component an `f32` bit pattern.
#[derive(Debug, Clone, Copy, PartialEq)]
pub struct Transform {
    pub position: [u32; 3],
    pub rotation: [u32; 4],
    pub scale: [u32; 3],
}

/// The rotation of a transform that does not rotate: the quaternion (0, 0, 0, 1).
pub open spec fn identity_rotation() -> Seq<u32> {
    seq![ZERO_BITS, ZERO_BITS, ZERO_BITS, ONE_BITS]
}

/// The scale of a transform that does not scale: (1, 1, 1).
pub open spec fn unit_scale() -> Seq<u32> {
    seq![ONE_BITS, ONE_BITS, ONE_BITS]
}

impl Default for Transform {
    /// At the origin, not rotated, not scaled.
    fn default() -> (r: Self)
        ensures
            r.position@ == seq![ZERO_BITS, ZERO_BITS, ZERO_BITS],
            r.rotation@ == identity_rotation(),
            r.scale@ == unit_scale(),
    {
        Transform {
            position: [ZERO_BITS, ZERO_BITS, ZERO_BITS],
            rotation: [ZERO_BITS, ZERO_BITS, ZERO_BITS, ONE_BITS],
            scale: [ONE_BITS, ONE_BITS, ONE_BITS],
        }
    }
}

impl Transform {
    /// At the given position, not rotated, not scaled.
    pub fn at(position: [u32; 3]) -> (r: Self)
        ensures
            r.position == position,
            r.rotation@ == identity_rotation(),
            r.scale@ == unit_scale(),
    {
        Transform {
            position,
            rotation: [ZERO_BITS, ZERO_BITS, ZERO_BITS, ONE_BITS],
            scale: [ONE_BITS, ONE_BITS, ONE_BITS],
        }
    }
}

/// What a scene node shows.
#[derive(Debug, Clone, PartialEq)]
pub enum NodeKind {
    /// A rack unit (a synthesizer, an effect): its display name, whether it
    /// sounds, and how many rack units high it is.
    RackUnit { name: String, active: bool, rack_units: u32 },
    /// A cable between two nodes.
    Cable { from: NodeId, to: NodeId },
    /// The background plane.
    Background,
}

/// A node of the scene.
#[derive(Debug, Clone)]
pub struct SceneNode {
    pub id: NodeId,
    pub kind: NodeKind,
    pub transform: Transform,
}

/// The scene: its nodes in a vector, and an index from identifier to
/// position for constant-time lookups.
pub struct SceneGraph {
    nodes: Vec<SceneNode>,
    lookup: HashMap<u32, usize>,
    next_id: u32,
}

/// The state of a scene: its nodes in order, and the identifier the next
/// node will get.
pub struct SceneGraphView {
    pub nodes: Seq<SceneNode>,
    pub next_id: u32,
}

impl View for SceneGraph {
    type V = SceneGraphView;

    closed spec fn view(&self) -> SceneGraphView {
        SceneGraphView { nodes: self.nodes@, next_id: self.next_id }
    }
}

/// No two nodes share an identifier, and every identifier is below the next one.
pub open spec fn scene_inv(v: SceneGraphView) -> bool {
    &&& forall|i: int| 0 <= i < v.nodes.len() ==> (#[trigger] v.nodes[i]).id.0 < v.next_id
    &&& forall|i: int, j: int|
        0 <= i < v.nodes.len() && 0 <= j < v.nodes.len() && #[trigger] v.nodes[i].id == #[trigger] v.nodes[j].id
            ==> i == j
}

/// Whether a node with the identifier is among the nodes.
pub open spec fn contains_id(nodes: Seq<SceneNode>, id: NodeId) -> bool {
    exists|i: int| 0 <= i < nodes.len() && #[trigger] nodes[i].id == id
}

/// The position of the node with the identifier.
pub open spec fn index_of_id(nodes: Seq<SceneNode>, id: NodeId) -> int {
    choose|i: int| 0 <= i < nodes.len() && #[trigger] nodes[i].id == id
}

/// The node with the identifier, if there is one.
pub open spec fn node_with_id(nodes: Seq<SceneNode>, id: NodeId) -> Option<SceneNode> {
    if contains_id(nodes, id) {
        Some(nodes[index_of_id(nodes, id)])
    } else {
        None
    }
}

/// The nodes after removing the one with the identifier: the last node takes
/// its place. Unchanged when there is no such node.
pub open spec fn without_id(nodes: Seq<SceneNode>, id: NodeId) -> Seq<SceneNode> {
    if contains_id(nodes, id) {
        nodes.update(index_of_id(nodes, id), nodes.last()).drop_last()
    } else {
        nodes
    }
}

/// Where ids are unique, the position of a node is the one `index_of_id` picks.
proof fn lemma_index_of_unique(v: SceneGraphView, i: int)
    requires
        scene_inv(v),
        0 <= i < v.nodes.len(),
    ensures
        contains_id(v.nodes, v.nodes[i].id),
        index_of_id(v.nodes, v.nodes[i].id) == i,
{
    let id = v.nodes[i].id;
    assert(v.nodes[i].id == id);
    let j = index_of_id(v.nodes, id);
    assert(v.nodes[j].id == v.nodes[i].id);
}

/// A node just added, with an identifier no node had, is found by it, and
/// every other identifier finds what it found before.
pub proof fn law_added_node_is_found(v: SceneGraphView, n: SceneNode, other: NodeId)
    requires
        scene_inv(v),
        n.id.0 == v.next_id,
    ensures
        node_with_id(v.nodes.push(n), n.id) == Some(n),
        other != n.id ==> node_with_id(v.nodes.push(n), other) == node_with_id(v.nodes, other),
{
    let pushed = v.nodes.push(n);
    let last = v.nodes.len() as int;
    assert(pushed[last].id == n.id);
    let j = index_of_id(pushed, n.id);
    if j < last {
        assert(v.nodes[j].id.0 < v.next_id);
    }
    if other != n.id {
        if contains_id(v.nodes, other) {
            let i = index_of_id(v.nodes, other);
            assert(pushed[i] == v.nodes[i]);
            let k = index_of_id(pushed, other);
            assert(pushed[k].id == other);
            assert(k != last);
            assert(v.nodes[k] == pushed[k]);
        }
        if contains_id(pushed, other) {
            let k = index_of_id(pushed, other);
            assert(k != last);
            assert(v.nodes[k] == pushed[k]);
        }
    }
}

/// After a removal the identifier finds nothing, and every other identifier
/// finds what it found before.
pub proof fn law_removed_node_is_gone(v: SceneGraphView, id: NodeId, other: NodeId)
    requires
        scene_inv(v),
    ensures
        node_with_id(without_id(v.nodes, id), id) is None,
        other != id ==> node_with_id(without_id(v.nodes, id), other) == node_with_id(v.nodes, other),
{
    let nodes = v.nodes;
    if contains_id(nodes, id) {
        let idx = index_of_id(nodes, id);
        let last = nodes.len() - 1;
        let after = without_id(nodes, id);
        assert(after.len() == last);
        // Each position of the result holds the node of some old position other than idx.
        assert forall|i: int| 0 <= i < after.len() implies
            #[trigger] after[i] == nodes[if i == idx { last } else { i }] && (if i == idx { last } else { i }) != idx by {}
        if contains_id(after, id) {
            let k = index_of_id(after, id);
            let ok = if k == idx { last } else { k };
            assert(nodes[ok].id == nodes[idx].id);
        }
        if other != id {
            if contains_id(nodes, other) {
                let i = index_of_id(nodes, other);
                assert(i != idx);
                let pos = if i == last { idx } else { i };
                assert(after[pos] == nodes[i]);
                assert(contains_id(after, other));
                let k = index_of_id(after, other);
                let ok = if k == idx { last } else { k };
                assert(after[k] == nodes[ok]);
                assert(nodes[ok].id == nodes[i].id);
            } else {
                if contains_id(after, other) {
                    let k = index_of_id(after, other);
                    let ok = if k == idx { last } else { k };
                    assert(nodes[ok].id == other);
                }
            }
        }
    }
}

impl SceneGraph {
    /// What a well-formed scene keeps: [`scene_inv`] of its state.
    pub proof fn lemma_wf_scene_inv(&self)
        requires
            self.wf(),
        ensures
            scene_inv(self@),
    {
    }

    /// The index agrees with the vector, and the state keeps [`scene_inv`].
    pub closed spec fn wf(&self) -> bool {
        &&& scene_inv(self@)
        &&& forall|i: int| 0 <= i < self.nodes@.len() ==> {
            &&& #[trigger] self.lookup@.contains_key(self.nodes@[i].id.0)
            &&& self.lookup@[self.nodes@[i].id.0] == i
        }
        &&& forall|k: u32| #[trigger] self.lookup@.contains_key(k) ==> {
            &&& self.lookup@[k] < self.nodes@.len()
            &&& self.nodes@[self.lookup@[k] as int].id.0 == k
        }
    }

    /// An empty scene.
    pub fn new() -> (r: Self)
        ensures
            r.wf(),
            r@.nodes == Seq::<SceneNode>::empty(),
            r@.next_id == 0,
    {
        SceneGraph { nodes: Vec::new(), lookup: HashMap::new(), next_id: 0 }
    }

    /// Adds a node and returns the identifier it was given.
    pub fn add_node(&mut self, kind: NodeKind, transform: Transform) -> (r: NodeId)
        requires
            old(self).wf(),
            old(self)@.next_id < u32::MAX,
        ensures
            final(self).wf(),
            r.0 == old(self)@.next_id,
            final(self)@.nodes == old(self)@.nodes.push(SceneNode { id: r, kind, transform }),
            final(self)@.next_id == old(self)@.next_id + 1,
    {
        let id = NodeId(self.next_id);
        self.next_id = self.next_id + 1;
        let idx = self.nodes.len();
        self.nodes.push(SceneNode { id, kind, transform });
        assert(!self.lookup@.contains_key(id.0)) by {
            if self.lookup@.contains_key(id.0) {
                let j = self.lookup@[id.0] as int;
                assert(old(self).nodes@[j].id.0 < old(self).next_id);
            }
        }
        self.lookup.insert(id.0, idx);
        proof {
            assert forall|i: int| 0 <= i < self.nodes@.len() implies (#[trigger] self.nodes@[i]).id.0 < self@.next_id by {
                if i < idx {
                    assert(old(self).nodes@[i].id.0 < old(self).next_id);
                }
            }
            assert forall|i: int, j: int|
                0 <= i < self.nodes@.len() && 0 <= j < self.nodes@.len() && #[trigger] self.nodes@[i].id
                    == #[trigger] self.nodes@[j].id implies i == j by {
                if i < idx {
                    assert(old(self).nodes@[i].id.0 < old(self).next_id);
                }
                if j < idx {
                    assert(old(self).nodes@[j].id.0 < old(self).next_id);
                }
                if i < idx && j < idx {
                    assert(old(self).nodes@[i] == self.nodes@[i]);
                    assert(old(self).nodes@[j] == self.nodes@[j]);
                }
            }
            assert forall|i: int| 0 <= i < self.nodes@.len() implies {
                &&& #[trigger] self.lookup@.contains_key(self.nodes@[i].id.0)
                &&& self.lookup@[self.nodes@[i].id.0] == i
            } by {
                if i < idx {
                    assert(old(self).nodes@[i] == self.nodes@[i]);
                    assert(old(self).nodes@[i].id.0 < old(self).next_id);
                }
            }
            assert forall|k: u32| #[trigger] self.lookup@.contains_key(k) implies {
                &&& self.lookup@[k] < self.nodes@.len()
                &&& self.nodes@[self.lookup@[k] as int].id.0 == k
            } by {
                if k != id.0 {
                    assert(old(self).lookup@.contains_key(k));
                }
            }
        }
        id
    }
}

impl SceneGraph {
    /// Removes the node with the identifier, in constant time: the last node
    /// takes its place, so the order of the others may change. Nothing
    /// happens when there is no such node.
    pub fn remove_node(&mut self, id: NodeId)
        requires
            old(self).wf(),
        ensures
            final(self).wf(),
            final(self)@.nodes == without_id(old(self)@.nodes, id),
            final(self)@.next_id == old(self)@.next_id,
            node_with_id(final(self)@.nodes, id) is None,
            forall|other: NodeId| other != id ==> #[trigger] node_with_id(final(self)@.nodes, other) == node_with_id(
                old(self)@.nodes,
                other,
            ),
            contains_id(old(self)@.nodes, id) ==> final(self)@.nodes.len() == old(self)@.nodes.len() - 1,
            !contains_id(old(self)@.nodes, id) ==> final(self)@.nodes == old(self)@.nodes,
    {
        proof {
            law_removed_node_is_gone(old(self)@, id, id);
            assert forall|other: NodeId| other != id implies #[trigger] node_with_id(without_id(old(self)@.nodes, id), other)
                == node_with_id(old(self)@.nodes, other) by {
                law_removed_node_is_gone(old(self)@, id, other);
            }
        }
        let key = id.0;
        let found = match self.lookup.get(&key) {
            Some(i) => Some(*i),
            None => None,
        };
        match found {
            Some(idx) => {
                let ghost old_nodes = self.nodes@;
                let ghost old_lookup = self.lookup@;
                let ghost last = old_nodes.len() - 1;
                proof {
                    lemma_index_of_unique(old(self)@, idx as int);
                }
                self.nodes.swap_remove(idx);
                self.lookup.remove(&key);
                if idx < self.nodes.len() {
                    let moved_id = self.nodes[idx].id;
                    self.lookup.insert(moved_id.0, idx);
                }
                proof {
                    let nodes = self.nodes@;
                    assert(nodes == without_id(old_nodes, id));
                    assert forall|i: int| 0 <= i < nodes.len() implies (#[trigger] nodes[i]).id.0 < self.next_id by {
                        if i == idx {
                            assert(old_nodes[last].id.0 < self.next_id);
                        } else {
                            assert(old_nodes[i].id.0 < self.next_id);
                        }
                    }
                    assert forall|i: int, j: int|
                        0 <= i < nodes.len() && 0 <= j < nodes.len() && #[trigger] nodes[i].id == #[trigger] nodes[j].id
                            implies i == j by {
                        let oi = if i == idx { last } else { i };
                        let oj = if j == idx { last } else { j };
                        assert(nodes[i] == old_nodes[oi]);
                        assert(nodes[j] == old_nodes[oj]);
                        assert(old_nodes[oi].id == old_nodes[oj].id);
                    }
                    assert forall|i: int| 0 <= i < nodes.len() implies {
                        &&& #[trigger] self.lookup@.contains_key(nodes[i].id.0)
                        &&& self.lookup@[nodes[i].id.0] == i
                    } by {
                        if i != idx {
                            assert(nodes[i] == old_nodes[i]);
                            assert(old_lookup.contains_key(old_nodes[i].id.0));
                            assert(old_lookup[old_nodes[i].id.0] == i);
                            if old_nodes[i].id.0 == key {
                                assert(old_nodes[idx as int].id.0 == key);
                            }
                            if idx < nodes.len() && old_nodes[i].id.0 == old_nodes[last].id.0 {
                                assert(old_nodes[i].id == old_nodes[last].id);
                            }
                        }
                    }
                    assert forall|k: u32| #[trigger] self.lookup@.contains_key(k) implies {
                        &&& self.lookup@[k] < nodes.len()
                        &&& nodes[self.lookup@[k] as int].id.0 == k
                    } by {
                        if idx < nodes.len() && k == old_nodes[last].id.0 {
                        } else {
                            assert(old_lookup.contains_key(k));
                            assert(k != key);
                            let j = old_lookup[k] as int;
                            assert(old_nodes[j].id.0 == k);
                            assert(j != idx);
                            if j == last {
                                assert(idx == nodes.len());
                            }
                        }
                    }
                }
            },
            None => {
                proof {
                    if contains_id(self.nodes@, id) {
                        let i = index_of_id(self.nodes@, id);
                        assert(self.lookup@.contains_key(self.nodes@[i].id.0));
                    }
                }
            },
        }
    }

    /// The node with the identifier, in constant time.
    pub fn get(&self, id: NodeId) -> (r: Option<&SceneNode>)
        requires
            self.wf(),
        ensures
            match r {
                Some(n) => node_with_id(self@.nodes, id) == Some(*n),
                None => node_with_id(self@.nodes, id) is None,
            },
    {
        match self.lookup.get(&id.0) {
            Some(i) => {
                proof {
                    lemma_index_of_unique(self@, *i as int);
                }
                Some(&self.nodes[*i])
            },
            None => {
                proof {
                    if contains_id(self.nodes@, id) {
                        let i = index_of_id(self.nodes@, id);
                        assert(self.lookup@.contains_key(self.nodes@[i].id.0));
                    }
                }
                None
            },
        }
    }

    /// The node with the identifier, to change in place. The scene stays
    /// well formed as long as the node keeps its identifier.
    pub fn get_mut(&mut self, id: NodeId) -> (r: Option<&mut SceneNode>)
        requires
            old(self).wf(),
        ensures
            match r {
                Some(n) => {
                    &&& node_with_id(old(self)@.nodes, id) == Some(*n)
                    &&& final(self)@.nodes == old(self)@.nodes.update(index_of_id(old(self)@.nodes, id), *final(n))
                    &&& final(self)@.next_id == old(self)@.next_id
                    &&& final(n).id == id ==> final(self).wf()
                },
                None => {
                    &&& node_with_id(old(self)@.nodes, id) is None
                    &&& final(self)@ == old(self)@
                    &&& final(self).wf()
                },
            },
    {
        match self.lookup.get(&id.0) {
            Some(i) => {
                let idx = *i;
                proof {
                    lemma_index_of_unique(old(self)@, idx as int);
                }
                Some(&mut self.nodes[idx])
            },
            None => {
                proof {
                    if contains_id(self.nodes@, id) {
                        let i = index_of_id(self.nodes@, id);
                        assert(self.lookup@.contains_key(self.nodes@[i].id.0));
                    }
                }
                None
            },
        }
    }

    /// All nodes, in their current order.
    pub fn nodes(&self) -> (r: &[SceneNode])
        ensures
            r@ == self@.nodes,
    {
        self.nodes.as_slice()
    }

    /// Removes every node; identifiers given later stay new.
    pub fn clear(&mut self)
        requires
            old(self).wf(),
        ensures
            final(self).wf(),
            final(self)@.nodes == Seq::<SceneNode>::empty(),
            final(self)@.next_id == old(self)@.next_id,
    {
        self.nodes.clear();
        self.lookup.clear();
    }
}

impl Default for SceneGraph {
    /// An empty scene.
    fn default() -> (r: Self)
        ensures
            r.wf(),
            r@.nodes == Seq::<SceneNode>::empty(),
            r@.next_id == 0,
    {
        SceneGraph::new()
    }
}

} // verus!

verus! {

/// A handle to a mesh uploaded to the GPU.
#[derive(Debug, Clone, Copy, PartialEq, Eq, Structural, Hash)]
pub struct MeshHandle(pub u32);

/// One draw command of a frame: a mesh and its model matrix, column-major
/// 4 x 4, of `f32` bit patterns.
#[derive(Debug, Clone, Copy)]
pub struct DrawCall {
    pub mesh: MeshHandle,
    pub transform: [[u32; 4]; 4],
}

/// The model matrix of a transform: its scale on the diagonal and its
/// position as the translation column; rotation is not applied.
pub open spec fn model_matrix(t: Transform) -> [[u32; 4]; 4] {
    [
        [t.scale[0], ZERO_BITS, ZERO_BITS, ZERO_BITS],
        [ZERO_BITS, t.scale[1], ZERO_BITS, ZERO_BITS],
        [ZERO_BITS, ZERO_BITS, t.scale[2], ZERO_BITS],
        [t.position[0], t.position[1], t.position[2], ONE_BITS],
    ]
}

/// A model matrix scales each axis by the transform's scale for that axis
/// (x, y, z on the diagonal, in that order), translates by the position (its
/// last row, then 1.0), and holds 0.0 everywhere else.
pub proof fn law_model_matrix_scales_each_axis(t: Transform)
    ensures
        forall|i: int| 0 <= i < 3 ==> #[trigger] model_matrix(t)[i][i] == t.scale[i],
        forall|j: int| 0 <= j < 3 ==> #[trigger] model_matrix(t)[3][j] == t.position[j],
        model_matrix(t)[3][3] == ONE_BITS,
        forall|i: int, j: int| 0 <= i < 3 && 0 <= j < 4 && i != j ==> #[trigger] model_matrix(t)[i][j] == ZERO_BITS,
{
    let m = model_matrix(t);
    assert(m[0][0] == t.scale[0] && m[1][1] == t.scale[1] && m[2][2] == t.scale[2]);
}

/// The identity matrix.
pub open spec fn identity_matrix() -> [[u32; 4]; 4] {
    [
        [ONE_BITS, ZERO_BITS, ZERO_BITS, ZERO_BITS],
        [ZERO_BITS, ONE_BITS, ZERO_BITS, ZERO_BITS],
        [ZERO_BITS, ZERO_BITS, ONE_BITS, ZERO_BITS],
        [ZERO_BITS, ZERO_BITS, ZERO_BITS, ONE_BITS],
    ]
}

impl DrawCall {
    /// A draw command of the mesh with the identity matrix.
    pub fn identity(mesh: MeshHandle) -> (r: Self)
        ensures
            r.mesh == mesh,
            r.transform == identity_matrix(),
    {
        DrawCall {
            mesh,
            transform: [
                [ONE_BITS, ZERO_BITS, ZERO_BITS, ZERO_BITS],
                [ZERO_BITS, ONE_BITS, ZERO_BITS, ZERO_BITS],
                [ZERO_BITS, ZERO_BITS, ONE_BITS, ZERO_BITS],
                [ZERO_BITS, ZERO_BITS, ZERO_BITS, ONE_BITS],
            ],
        }
    }
}

/// The first node among `nodes` with the identifier, if any.
pub open spec fn first_with_id(nodes: Seq<SceneNode>, id: NodeId) -> Option<SceneNode>
    decreases nodes.len(),
{
    if nodes.len() == 0 {
        None
    } else if nodes[0].id == id {
        Some(nodes[0])
    } else {
        first_with_id(nodes.drop_first(), id)
    }
}

/// The draw commands for the (node, mesh) pairs, in their order: one per
/// pair whose node is in the scene, with that node's model matrix.
pub open spec fn draw_calls_for(pairs: Seq<(NodeId, MeshHandle)>, nodes: Seq<SceneNode>) -> Seq<DrawCall>
    decreases pairs.len(),
{
    if pairs.len() == 0 {
        Seq::empty()
    } else {
        let rest = draw_calls_for(pairs.drop_last(), nodes);
        match first_with_id(nodes, pairs.last().0) {
            Some(n) => rest.push(DrawCall { mesh: pairs.last().1, transform: model_matrix(n.transform) }),
            None => rest,
        }
    }
}

/// Where identifiers are unique, the first node with an identifier is the
/// one the scene finds by it.
pub proof fn lemma_first_is_found(v: SceneGraphView, id: NodeId)
    requires
        scene_inv(v),
    ensures
        first_with_id(v.nodes, id) == node_with_id(v.nodes, id),
{
    lemma_first_with_id_in(v.nodes, id);
    if contains_id(v.nodes, id) {
        let i = index_of_id(v.nodes, id);
        let f = first_with_id(v.nodes, id);
        let k = choose|k: int| 0 <= k < v.nodes.len() && v.nodes[k] == f->0;
        assert(v.nodes[k].id == v.nodes[i].id);
    }
}

proof fn lemma_first_with_id_in(nodes: Seq<SceneNode>, id: NodeId)
    ensures
        first_with_id(nodes, id) is None <==> !contains_id(nodes, id),
        first_with_id(nodes, id) is Some ==> exists|k: int|
            0 <= k < nodes.len() && nodes[k] == first_with_id(nodes, id)->0 && nodes[k].id == id,
    decreases nodes.len(),
{
    if nodes.len() > 0 {
        lemma_first_with_id_in(nodes.drop_first(), id);
        if nodes[0].id == id {
            assert(nodes[0].id == id);
        } else {
            if contains_id(nodes, id) {
                let i = index_of_id(nodes, id);
                assert(nodes.drop_first()[i - 1].id == id);
            }
            if contains_id(nodes.drop_first(), id) {
                let i = index_of_id(nodes.drop_first(), id);
                assert(nodes[i + 1].id == id);
            }
            if first_with_id(nodes, id) is Some {
                let k = choose|k: int|
                    0 <= k < nodes.drop_first().len() && nodes.drop_first()[k] == first_with_id(nodes.drop_first(), id)->0
                        && nodes.drop_first()[k].id == id;
                assert(nodes[k + 1] == nodes.drop_first()[k]);
            }
        }
    }
}

/// The first node among `nodes` with the identifier.
fn find_node<'a>(nodes: &'a [SceneNode], id: NodeId) -> (r: Option<&'a SceneNode>)
    ensures
        match r {
            Some(n) => first_with_id(nodes@, id) == Some(*n),
            None => first_with_id(nodes@, id) is None,
        },
{
    let mut i: usize = 0;
    assert(nodes@.subrange(0, nodes@.len() as int) =~= nodes@);
    while i < nodes.len()
        invariant
            0 <= i <= nodes@.len(),
            first_with_id(nodes@, id) == first_with_id(nodes@.subrange(i as int, nodes@.len() as int), id),
        decreases nodes@.len() - i,
    {
        let ghost rest = nodes@.subrange(i as int, nodes@.len() as int);
        assert(rest.drop_first() =~= nodes@.subrange(i + 1, nodes@.len() as int));
        assert(rest[0] == nodes@[i as int]);
        if nodes[i].id == id {
            return Some(&nodes[i]);
        }
        i = i + 1;
    }
    assert(nodes@.subrange(i as int, nodes@.len() as int).len() == 0);
    None
}

/// The draw commands of a frame: for each (node, mesh) pair, in order, a
/// command with the node's model matrix, skipping nodes not in the scene.
pub fn build_draw_calls(node_handles: &[(NodeId, MeshHandle)], graph: &SceneGraph) -> (r: Vec<DrawCall>)
    ensures
        r@ == draw_calls_for(node_handles@, graph@.nodes),
{
    let mut draw_calls: Vec<DrawCall> = Vec::with_capacity(node_handles.len());
    let nodes = graph.nodes();
    let mut k: usize = 0;
    while k < node_handles.len()
        invariant
            0 <= k <= node_handles@.len(),
            nodes@ == graph@.nodes,
            draw_calls@ == draw_calls_for(node_handles@.subrange(0, k as int), graph@.nodes),
        decreases node_handles@.len() - k,
    {
        let (node_id, mesh_handle) = node_handles[k];
        assert(node_handles@.subrange(0, k + 1).drop_last() =~= node_handles@.subrange(0, k as int));
        match find_node(nodes, node_id) {
            Some(node) => {
                let t = node.transform;
                let transform = [
                    [t.scale[0], ZERO_BITS, ZERO_BITS, ZERO_BITS],
                    [ZERO_BITS, t.scale[1], ZERO_BITS, ZERO_BITS],
                    [ZERO_BITS, ZERO_BITS, t.scale[2], ZERO_BITS],
                    [t.position[0], t.position[1], t.position[2], ONE_BITS],
                ];
                assert(transform == model_matrix(t));
                draw_calls.push(DrawCall { mesh: mesh_handle, transform });
            },
            None => {},
        }
        k = k + 1;
    }
    assert(node_handles@.subrange(0, node_handles@.len() as int) =~= node_handles@);
    draw_calls
}

} // verus!
