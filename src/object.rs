//! Renderable things with positions, transformations, meshes and materials.
//!
//! Nodes live in an arena of slots addressed by stable index. Mutating a node
//! through its handle enqueues a command; the registry applies the queued
//! commands, in order, once per frame.
use vstd::prelude::*;

use crate::channel::CommandQueue;
use crate::math::{
    add3, matrix_from_trs, mul3, mul_quat, project_point, projected_point, quat_from_ints,
    quat_of_ints, quat_product, trs_matrix, vec3_from_ints, vec3_of_ints, vec3_product, vec3_sum,
};

verus! {

/// Position, rotation and non-uniform scale.
#[derive(Clone, Copy, Debug)]
pub struct Transform {
    pub position: glam::Vec3,
    pub rotation: glam::Quat,
    pub scale: glam::Vec3,
}

pub type LocalTransform = Transform;

pub type WorldTransform = Transform;

/// The identity transform: zero position, identity rotation, unit scale.
pub open spec fn identity_transform() -> Transform {
    Transform {
        position: vec3_of_ints(0, 0, 0),
        rotation: quat_of_ints(0, 0, 0, 1),
        scale: vec3_of_ints(1, 1, 1),
    }
}

impl Default for Transform {
    /// The identity transform.
    fn default() -> (r: Transform)
        ensures
            r == identity_transform(),
    {
        Transform {
            position: vec3_from_ints(0, 0, 0),
            rotation: quat_from_ints(0, 0, 0, 1),
            scale: vec3_from_ints(1, 1, 1),
        }
    }
}

/// `acc`, a transform resolved so far, placed under the local transform
/// `parent` of the next ancestor: positions add, scales and rotations
/// multiply (the ancestor's rotation on the left).
pub open spec fn compose(acc: Transform, parent: Transform) -> Transform {
    Transform {
        position: vec3_sum(acc.position, parent.position),
        rotation: quat_product(parent.rotation, acc.rotation),
        scale: vec3_product(acc.scale, parent.scale),
    }
}

/// Compose a resolved transform with the local transform of its parent.
pub fn compose_transform(acc: Transform, parent: Transform) -> (r: Transform)
    ensures
        r == compose(acc, parent),
{
    Transform {
        position: add3(acc.position, parent.position),
        rotation: mul_quat(parent.rotation, acc.rotation),
        scale: mul3(acc.scale, parent.scale),
    }
}

/// A command from a handle to the registry.
#[derive(Clone, Copy, Debug, PartialEq, Eq, Structural)]
pub enum ObjUpdateCmd {
    /// Update the given object's world transforms.
    Transform { object_id: usize },
    /// Update the given object's mesh.
    Mesh { object_id: usize },
    /// Update the given object's material.
    Material { object_id: usize },
    /// Destroy this object's render-side resources.
    Destroy { object_id: usize },
}

#[derive(Clone, Copy, Debug, PartialEq, Eq, Structural)]
pub enum ObjectBuilderError {
    MissingMesh,
}

impl ObjectBuilderError {
    /// A human-readable description of this error.
    pub fn message(&self) -> (r: &'static str)
        ensures
            r@ == "object builder is missing `mesh`"@,
    {
        "object builder is missing `mesh`"
    }
}

/// Control-side state of one object.
pub struct Node {
    pub mesh: Option<usize>,
    pub material: Option<usize>,
    pub parent: Option<usize>,
    pub children: Vec<usize>,
    pub is_visible: bool,
    pub local_transforms: Vec<Transform>,
}

/// Render-side state of one object, derived from its node by the commands.
pub struct ObjectData {
    pub id: usize,
    pub mesh: Option<usize>,
    pub material: Option<usize>,
    /// The world transform of each instance, as uploaded for drawing.
    pub instances: Vec<Transform>,
    pub world_position: glam::Vec3,
    pub generate_normal_matrix: bool,
}

/// One arena entry: the node, its render-side data until destroyed, and the
/// number of live handles.
pub struct Slot {
    pub node: Node,
    pub data: Option<ObjectData>,
    pub handles: usize,
}

pub ghost struct NodeView {
    pub mesh: Option<usize>,
    pub material: Option<usize>,
    pub parent: Option<usize>,
    pub children: Seq<usize>,
    pub is_visible: bool,
    pub local_transforms: Seq<Transform>,
}

pub ghost struct DataView {
    pub id: usize,
    pub mesh: Option<usize>,
    pub material: Option<usize>,
    pub instances: Seq<Transform>,
    pub world_position: glam::Vec3,
    pub generate_normal_matrix: bool,
}

pub ghost struct SlotView {
    pub node: NodeView,
    pub data: Option<DataView>,
    pub handles: usize,
}

impl View for Node {
    type V = NodeView;

    open spec fn view(&self) -> NodeView {
        NodeView {
            mesh: self.mesh,
            material: self.material,
            parent: self.parent,
            children: self.children@,
            is_visible: self.is_visible,
            local_transforms: self.local_transforms@,
        }
    }
}

impl View for ObjectData {
    type V = DataView;

    open spec fn view(&self) -> DataView {
        DataView {
            id: self.id,
            mesh: self.mesh,
            material: self.material,
            instances: self.instances@,
            world_position: self.world_position,
            generate_normal_matrix: self.generate_normal_matrix,
        }
    }
}

pub open spec fn data_view(d: Option<ObjectData>) -> Option<DataView> {
    match d {
        Some(d) => Some(d@),
        None => None,
    }
}

impl View for Slot {
    type V = SlotView;

    open spec fn view(&self) -> SlotView {
        SlotView { node: self.node@, data: data_view(self.data), handles: self.handles }
    }
}

/// The ancestors of a node whose parent link is `parent`, nearest first, at
/// most `fuel` of them: the chain stops at a node with no parent.
pub open spec fn ancestors(m: Seq<SlotView>, parent: Option<usize>, fuel: nat) -> Seq<usize>
    decreases fuel,
{
    match parent {
        None => seq![],
        Some(p) => if fuel == 0 || p >= m.len() || m[p as int].node.local_transforms.len() == 0 {
            seq![]
        } else {
            seq![p] + ancestors(m, m[p as int].node.parent, (fuel - 1) as nat)
        },
    }
}

/// The primary local transforms of `chain` (nearest first) folded from its
/// far end, the root, down to its near end, starting from the identity.
pub open spec fn fold_down(m: Seq<SlotView>, chain: Seq<usize>) -> Transform
    decreases chain.len(),
{
    if chain.len() == 0 {
        identity_transform()
    } else {
        compose(m[chain[0] as int].node.local_transforms[0], fold_down(m, chain.drop_first()))
    }
}

/// The world transform of a node's parent, for a node whose parent link is
/// `parent`: the identity for a root, else the parent's primary local
/// transform composed with its own parent's world transform.
pub open spec fn parent_world(m: Seq<SlotView>, parent: Option<usize>, fuel: nat) -> Transform
    decreases fuel,
{
    match parent {
        None => identity_transform(),
        Some(p) => if fuel == 0 || p >= m.len() || m[p as int].node.local_transforms.len() == 0 {
            identity_transform()
        } else {
            compose(
                m[p as int].node.local_transforms[0],
                parent_world(m, m[p as int].node.parent, (fuel - 1) as nat),
            )
        },
    }
}

/// The world transform of local transform `t` of node `i`: `t` composed with
/// the world transform of the node's parent. An acyclic chain has fewer
/// ancestors than there are nodes, so the bound never cuts it.
pub open spec fn world_of(m: Seq<SlotView>, i: int, t: Transform) -> Transform {
    compose(t, parent_world(m, m[i].node.parent, m.len()))
}

/// The cached world position of node `i`: its primary local position
/// projected through the model matrix of its parent's world transform.
pub open spec fn world_position_of(m: Seq<SlotView>, i: int) -> glam::Vec3 {
    let pw = parent_world(m, m[i].node.parent, m.len());
    projected_point(
        trs_matrix(pw.scale, pw.rotation, pw.position),
        m[i].node.local_transforms[0].position,
    )
}

/// Handle-side world transform as a fold: the parent's world transform is
/// the primary local transforms of the ancestors, the chain of parent links
/// up to a root, folded from the root down starting at the identity.
pub proof fn lemma_parent_world_fold(m: Seq<SlotView>, parent: Option<usize>, fuel: nat)
    ensures
        parent_world(m, parent, fuel) == fold_down(m, ancestors(m, parent, fuel)),
        forall|k: int|
            0 <= k < ancestors(m, parent, fuel).len() ==> {
                &&& (#[trigger] ancestors(m, parent, fuel)[k]) < m.len()
                &&& m[ancestors(m, parent, fuel)[k] as int].node.local_transforms.len() > 0
            },
        ancestors(m, parent, fuel).len() > 0 ==> parent == Some(ancestors(m, parent, fuel)[0]),
        forall|k: int|
            0 <= k < ancestors(m, parent, fuel).len() - 1 ==> m[(#[trigger] ancestors(
                m,
                parent,
                fuel,
            )[k]) as int].node.parent == Some(ancestors(m, parent, fuel)[k + 1]),
    decreases fuel,
{
    match parent {
        None => {},
        Some(p) => {
            if fuel > 0 && p < m.len() && m[p as int].node.local_transforms.len() > 0 {
                let q = m[p as int].node.parent;
                lemma_parent_world_fold(m, q, (fuel - 1) as nat);
                let rest = ancestors(m, q, (fuel - 1) as nat);
                let chain = ancestors(m, parent, fuel);
                assert(chain == seq![p] + rest);
                assert(chain.drop_first() =~= rest);
                assert forall|k: int| 0 <= k < chain.len() implies (#[trigger] chain[k]) < m.len()
                    && m[chain[k] as int].node.local_transforms.len() > 0 by {
                    if k > 0 {
                        assert(chain[k] == rest[k - 1]);
                    }
                }
                assert forall|k: int| 0 <= k < chain.len() - 1 implies m[(#[trigger] chain[k]) as int].node.parent
                    == Some(chain[k + 1]) by {
                    if k > 0 {
                        assert(chain[k] == rest[k - 1]);
                        assert(chain[k + 1] == rest[k]);
                    } else {
                        assert(chain[1] == rest[0]);
                    }
                }
            }
        },
    }
}

/// The world transform of every instance of node `i`.
pub open spec fn world_transforms_of(m: Seq<SlotView>, i: int) -> Seq<Transform> {
    Seq::new(
        m[i].node.local_transforms.len(),
        |j: int| world_of(m, i, m[i].node.local_transforms[j]),
    )
}

/// The registry after applying one command, and whether the command asks
/// for dependent draw lists to be resorted.
pub open spec fn apply_cmd(m: Seq<SlotView>, cmd: ObjUpdateCmd) -> (Seq<SlotView>, bool) {
    match cmd {
        ObjUpdateCmd::Transform { object_id } => {
            if object_id < m.len() && m[object_id as int].data is Some {
                let s = m[object_id as int];
                let w = world_transforms_of(m, object_id as int);
                let d = DataView {
                    instances: w,
                    world_position: world_position_of(m, object_id as int),
                    ..s.data.unwrap()
                };
                (m.update(object_id as int, SlotView { data: Some(d), ..s }), true)
            } else {
                (m, false)
            }
        },
        ObjUpdateCmd::Mesh { object_id } => {
            if object_id < m.len() && m[object_id as int].data is Some {
                let s = m[object_id as int];
                let d = DataView { mesh: s.node.mesh, ..s.data.unwrap() };
                (m.update(object_id as int, SlotView { data: Some(d), ..s }), false)
            } else {
                (m, false)
            }
        },
        ObjUpdateCmd::Material { object_id } => {
            if object_id < m.len() && m[object_id as int].data is Some {
                let s = m[object_id as int];
                let d = DataView { material: s.node.material, ..s.data.unwrap() };
                (m.update(object_id as int, SlotView { data: Some(d), ..s }), false)
            } else {
                (m, false)
            }
        },
        ObjUpdateCmd::Destroy { object_id } => {
            if object_id < m.len() {
                (m.update(object_id as int, SlotView { data: None, ..m[object_id as int] }), true)
            } else {
                (m, true)
            }
        },
    }
}

/// The registry after applying `cmds` in order, and whether any of them
/// asked for a resort.
pub open spec fn drain(m: Seq<SlotView>, cmds: Seq<ObjUpdateCmd>) -> (Seq<SlotView>, bool)
    decreases cmds.len(),
{
    if cmds.len() == 0 {
        (m, false)
    } else {
        let first = apply_cmd(m, cmds[0]);
        let rest = drain(first.0, cmds.drop_first());
        (rest.0, first.1 || rest.1)
    }
}

/// Node `c` nested under node `p`.
pub open spec fn appended(m: Seq<SlotView>, p: int, c: int) -> Seq<SlotView> {
    let m1 = m.update(p, SlotView { node: NodeView { children: m[p].node.children.push(c as usize), ..m[p].node }, ..m[p] });
    m1.update(c, SlotView { node: NodeView { parent: Some(p as usize), ..m1[c].node }, ..m1[c] })
}

/// Node `c` taken out of the children of node `p`, with no parent left.
pub open spec fn unnested(m: Seq<SlotView>, p: int, c: int) -> Seq<SlotView> {
    let m1 = m.update(p, SlotView { node: NodeView { children: m[p].node.children.filter(|x: usize| x != c as usize), ..m[p].node }, ..m[p] });
    m1.update(c, SlotView { node: NodeView { parent: None, ..m1[c].node }, ..m1[c] })
}

/// Node `c` taken out of its parent's children, if it has a parent.
pub open spec fn detached(m: Seq<SlotView>, c: int) -> Seq<SlotView> {
    match m[c].node.parent {
        None => m,
        Some(p) => unnested(m, p as int, c),
    }
}

/// Node `i` with its node view replaced.
pub open spec fn with_node(m: Seq<SlotView>, i: int, n: NodeView) -> Seq<SlotView> {
    m.update(i, SlotView { node: n, ..m[i] })
}

/// Transform resolution reads nodes only, never render-side data.
proof fn lemma_parent_world_same_nodes(
    m1: Seq<SlotView>,
    m2: Seq<SlotView>,
    parent: Option<usize>,
    fuel: nat,
)
    requires
        m1.len() == m2.len(),
        forall|i: int| 0 <= i < m1.len() ==> (#[trigger] m1[i]).node == m2[i].node,
    ensures
        parent_world(m1, parent, fuel) == parent_world(m2, parent, fuel),
    decreases fuel,
{
    match parent {
        None => {},
        Some(p) => {
            if fuel > 0 && p < m1.len() {
                assert(m1[p as int].node == m2[p as int].node);
                lemma_parent_world_same_nodes(m1, m2, m1[p as int].node.parent, (fuel - 1) as nat);
            }
        },
    }
}

/// Commands are idempotent: applying a command a second time right after
/// the first leaves the registry as the first application left it.
pub proof fn lemma_apply_idempotent(m: Seq<SlotView>, cmd: ObjUpdateCmd)
    ensures
        apply_cmd(apply_cmd(m, cmd).0, cmd).0 == apply_cmd(m, cmd).0,
{
    let m1 = apply_cmd(m, cmd).0;
    match cmd {
        ObjUpdateCmd::Transform { object_id } => {
            if object_id < m.len() && m[object_id as int].data is Some {
                let i = object_id as int;
                assert forall|j: int| 0 <= j < m.len() implies (#[trigger] m1[j]).node == m[j].node by {}
                lemma_parent_world_same_nodes(m1, m, m[i].node.parent, m.len());
                assert forall|j: int| 0 <= j < m1[i].node.local_transforms.len() implies
                    #[trigger] world_transforms_of(m1, i)[j] == world_transforms_of(m, i)[j] by {}
                assert(world_position_of(m1, i) == world_position_of(m, i));
                assert(world_transforms_of(m1, i) =~= world_transforms_of(m, i));
                assert(apply_cmd(m1, cmd).0 =~= m1);
            }
        },
        ObjUpdateCmd::Mesh { object_id } => {
            if object_id < m.len() && m[object_id as int].data is Some {
                assert(apply_cmd(m1, cmd).0 =~= m1);
            }
        },
        ObjUpdateCmd::Material { object_id } => {
            if object_id < m.len() && m[object_id as int].data is Some {
                assert(apply_cmd(m1, cmd).0 =~= m1);
            }
        },
        ObjUpdateCmd::Destroy { object_id } => {
            if object_id < m.len() {
                assert(apply_cmd(m1, cmd).0 =~= m1);
            }
        },
    }
}

/// The parent world transform reads only the parent links of the ancestors
/// and the local transforms.
proof fn lemma_parent_world_frame(
    m1: Seq<SlotView>,
    m2: Seq<SlotView>,
    parent: Option<usize>,
    fuel: nat,
)
    requires
        m1.len() == m2.len(),
        forall|k: int| 0 <= k < m1.len() ==> (#[trigger] m2[k]).node.local_transforms == m1[k].node.local_transforms,
        forall|k: usize|
            #[trigger] ancestors(m1, parent, fuel).contains(k) ==> m2[k as int].node.parent
                == m1[k as int].node.parent,
    ensures
        parent_world(m2, parent, fuel) == parent_world(m1, parent, fuel),
    decreases fuel,
{
    match parent {
        None => {},
        Some(p) => {
            if fuel > 0 && p < m1.len() {
                assert(m2[p as int].node.local_transforms == m1[p as int].node.local_transforms);
                if m1[p as int].node.local_transforms.len() > 0 {
                    let q = m1[p as int].node.parent;
                    let chain = ancestors(m1, parent, fuel);
                    let rest = ancestors(m1, q, (fuel - 1) as nat);
                    assert(chain == seq![p] + rest);
                    assert(chain[0] == p);
                    assert(chain.contains(p));
                    assert forall|k: usize| #[trigger] rest.contains(k) implies m2[k as int].node.parent
                        == m1[k as int].node.parent by {
                        let w = choose|w: int| 0 <= w < rest.len() && rest[w] == k;
                        assert(chain[w + 1] == k);
                        assert(chain.contains(k));
                    }
                    lemma_parent_world_frame(m1, m2, q, (fuel - 1) as nat);
                }
            }
        },
    }
}

/// Nesting: once node `c` is appended to node `p`, and so long as `c` is
/// not an ancestor of `p` (no cycle is made), the world transform of each
/// local transform `t` of `c` is `t` composed with the world transform of
/// `p` as it stood before.
pub proof fn lemma_append_child_world(m: Seq<SlotView>, p: int, c: int, t: Transform)
    requires
        model_wf(m),
        m.len() <= usize::MAX,
        0 <= p < m.len(),
        0 <= c < m.len(),
        p != c,
        !ancestors(m, Some(p as usize), m.len()).contains(c as usize),
    ensures
        world_of(appended(m, p, c), c, t) == compose(
            t,
            compose(m[p].node.local_transforms[0], parent_world(m, m[p].node.parent, (m.len() - 1) as nat)),
        ),
{
    let m2 = appended(m, p, c);
    assert(m[p].node.local_transforms.len() >= 1);
    assert(m2[c].node.parent == Some(p as usize));
    assert(m2[p].node.parent == m[p].node.parent);
    assert(m2[p].node.local_transforms == m[p].node.local_transforms);
    let q = m[p].node.parent;
    let fuel = (m.len() - 1) as nat;
    let chain = ancestors(m, Some(p as usize), m.len());
    let rest = ancestors(m, q, fuel);
    assert(chain == seq![p as usize] + rest);
    lemma_parent_world_fold(m, q, fuel);
    assert forall|k: usize| #[trigger] rest.contains(k) implies m2[k as int].node.parent
        == m[k as int].node.parent by {
        assert(exists|w: int| 0 <= w < rest.len() && rest[w] == k);
        let w = choose|w: int| 0 <= w < rest.len() && rest[w] == k;
        assert(chain.len() == rest.len() + 1);
        assert(chain[w + 1] == rest[w]);
        assert(rest[w] < m.len());
        assert(chain.contains(k));
        assert(k != c as usize);
    }
    lemma_parent_world_frame(m, m2, q, fuel);
}

/// Parenting round trip: nesting a node that has no parent under another
/// node and then detaching it gives it back the world transform of each of
/// its instances that it had before the nesting.
pub proof fn lemma_parenting_round_trip(m: Seq<SlotView>, parent: int, child: int)
    requires
        0 <= parent < m.len(),
        0 <= child < m.len(),
        parent != child,
        m[child].node.parent is None,
    ensures
        detached(appended(m, parent, child), child).len() == m.len(),
        world_transforms_of(detached(appended(m, parent, child), child), child)
            == world_transforms_of(m, child),
        forall|t: Transform|
            world_of(detached(appended(m, parent, child), child), child, t) == world_of(m, child, t),
{
    let m2 = detached(appended(m, parent, child), child);
    assert(m2[child].node.parent is None);
    assert(m2[child].node.local_transforms == m[child].node.local_transforms);
    assert(world_transforms_of(m2, child) =~= world_transforms_of(m, child));
}

/// All display objects on the stage: the arena of slots and the queue of
/// commands that the next `update` applies.
pub struct Objects {
    pub slots: Vec<Slot>,
    pub queue: CommandQueue,
}

/// A handle to one object of an `Objects` registry. Each handle is counted in
/// its slot; releasing the last one requests the object's destruction.
pub struct Object {
    pub id: usize,
}

impl Default for Objects {
    /// An empty registry with an empty command queue.
    fn default() -> (r: Objects)
        ensures
            r.wf(),
            r.model() == Seq::<SlotView>::empty(),
            r.queue.pending() == Seq::<ObjUpdateCmd>::empty(),
    {
        Objects::new()
    }
}

/// Every node has a primary transform and a parent inside the arena.
pub open spec fn model_wf(m: Seq<SlotView>) -> bool {
    forall|i: int|
        0 <= i < m.len() ==> {
            &&& (#[trigger] m[i]).node.local_transforms.len() >= 1
            &&& match m[i].node.parent {
                Some(p) => p < m.len(),
                None => true,
            }
        }
}

/// Well-formedness read off the registry's model.
proof fn lemma_wf_model(o: &Objects)
    ensures
        o.wf() <==> model_wf(o.model()),
{
    let m = o.model();
    if o.wf() {
        assert forall|i: int| 0 <= i < m.len() implies {
            &&& (#[trigger] m[i]).node.local_transforms.len() >= 1
            &&& match m[i].node.parent {
                Some(p) => p < m.len(),
                None => true,
            }
        } by {
            assert(m[i] == o.slots@[i]@);
            assert(o.slots@[i].node.local_transforms@.len() >= 1);
        }
    }
    if model_wf(m) {
        assert forall|i: int| 0 <= i < o.slots@.len() implies {
            &&& #[trigger] o.slots@[i].node.local_transforms@.len() >= 1
            &&& match o.slots@[i].node.parent {
                Some(p) => p < o.slots@.len(),
                None => true,
            }
        } by {
            assert(m[i] == o.slots@[i]@);
        }
    }
}

/// Builds an object from a mesh, optional material, transforms, children
/// and visibility.
pub struct ObjectBuilder {
    pub mesh: Option<usize>,
    pub material: Option<usize>,
    pub local_transform: Transform,
    pub local_transforms: Vec<Transform>,
    pub children: Vec<usize>,
    pub generate_normal_matrix: bool,
    pub is_visible: bool,
}

impl Objects {
    /// The registry as a sequence of slot views.
    pub open spec fn model(&self) -> Seq<SlotView> {
        self.slots@.map_values(|s: Slot| s@)
    }

    /// Every node has a primary transform and a parent inside the arena.
    pub open spec fn wf(&self) -> bool {
        forall|i: int|
            0 <= i < self.slots@.len() ==> {
                &&& #[trigger] self.slots@[i].node.local_transforms@.len() >= 1
                &&& match self.slots@[i].node.parent {
                    Some(p) => p < self.slots@.len(),
                    None => true,
                }
            }
    }

    /// An empty registry with an empty command queue.
    pub fn new() -> (r: Objects)
        ensures
            r.wf(),
            r.model() == Seq::<SlotView>::empty(),
            r.queue.pending() == Seq::<ObjUpdateCmd>::empty(),
    {
        let r = Objects { slots: Vec::new(), queue: CommandQueue::new() };
        assert(r.model() =~= Seq::<SlotView>::empty());
        r
    }

    /// Take the oldest pending command off the queue without applying it.
    pub fn next_command(&mut self) -> (r: Option<ObjUpdateCmd>)
        ensures
            final(self).slots == old(self).slots,
            old(self).queue.pending().len() == 0 ==> r.is_none() && final(self).queue.pending()
                == old(self).queue.pending(),
            old(self).queue.pending().len() > 0 ==> r == Some(old(self).queue.pending()[0])
                && final(self).queue.pending() == old(self).queue.pending().drop_first(),
    {
        self.queue.try_recv()
    }

    /// Whether the registry is well formed: every node has a primary
    /// transform and a parent inside the arena.
    pub fn is_well_formed(&self) -> (r: bool)
        ensures
            r == self.wf(),
    {
        let mut i: usize = 0;
        while i < self.slots.len()
            invariant
                i <= self.slots@.len(),
                forall|j: int|
                    0 <= j < i ==> {
                        &&& #[trigger] self.slots@[j].node.local_transforms@.len() >= 1
                        &&& match self.slots@[j].node.parent {
                            Some(p) => p < self.slots@.len(),
                            None => true,
                        }
                    },
            decreases self.slots@.len() - i,
        {
            if self.slots[i].node.local_transforms.len() == 0 {
                return false;
            }
            match self.slots[i].node.parent {
                Some(p) => {
                    if p >= self.slots.len() {
                        return false;
                    }
                },
                None => {},
            }
            i = i + 1;
        }
        true
    }

    /// The number of slots, live or destroyed.
    pub fn len(&self) -> (r: usize)
        ensures
            r == self.slots@.len(),
    {
        self.slots.len()
    }

    /// The render-side data of every slot, `None` where the object was
    /// destroyed.
    pub fn iter(&self) -> (r: Vec<Option<&ObjectData>>)
        ensures
            r@.len() == self.slots@.len(),
            forall|i: int|
                0 <= i < r@.len() ==> (#[trigger] r@[i]).is_some() == self.slots@[i].data.is_some(),
            forall|i: int|
                0 <= i < r@.len() && r@[i].is_some() ==> *(#[trigger] r@[i]).unwrap()
                    == self.slots@[i].data.unwrap(),
    {
        let mut r: Vec<Option<&ObjectData>> = Vec::new();
        let mut i: usize = 0;
        while i < self.slots.len()
            invariant
                i <= self.slots@.len(),
                r@.len() == i,
                forall|j: int| 0 <= j < i ==> (#[trigger] r@[j]).is_some() == self.slots@[j].data.is_some(),
                forall|j: int|
                    0 <= j < i && r@[j].is_some() ==> *(#[trigger] r@[j]).unwrap()
                        == self.slots@[j].data.unwrap(),
            decreases self.slots@.len() - i,
        {
            match &self.slots[i].data {
                Some(d) => r.push(Some(d)),
                None => r.push(None),
            }
            i = i + 1;
        }
        r
    }

    /// The world transform of the parent of a node whose parent link is
    /// `parent`.
    fn parent_world_at(&self, parent: Option<usize>) -> (r: Transform)
        requires
            self.wf(),
        ensures
            r == parent_world(self.model(), parent, self.slots@.len() as nat),
    {
        let ghost m = self.model();
        let ghost n = self.slots@.len() as nat;
        proof {
            lemma_parent_world_fold(m, parent, n);
        }
        // collect the ancestors, nearest first
        let mut chain: Vec<usize> = Vec::new();
        let mut cur = parent;
        let mut steps: usize = 0;
        while steps < self.slots.len()
            invariant
                m == self.model(),
                m.len() == self.slots@.len(),
                n == self.slots@.len(),
                steps <= self.slots@.len(),
                chain@ + ancestors(m, cur, (n - steps) as nat) == ancestors(m, parent, n),
            decreases self.slots@.len() - steps,
        {
            match cur {
                Some(p) => {
                    if p < self.slots.len() && self.slots[p].node.local_transforms.len() > 0 {
                        assert(m[p as int] == self.slots@[p as int]@);
                        let ghost before = chain@;
                        chain.push(p);
                        cur = self.slots[p].node.parent;
                        assert(chain@ + ancestors(m, cur, (n - steps - 1) as nat) =~= before + ancestors(
                            m,
                            Some(p),
                            (n - steps) as nat,
                        ));
                        steps = steps + 1;
                    } else {
                        if p < self.slots.len() {
                            assert(m[p as int] == self.slots@[p as int]@);
                        }
                        assert(chain@ + ancestors(m, cur, (n - steps) as nat) =~= chain@);
                        steps = self.slots.len();
                        assert(chain@ + ancestors(m, cur, 0) =~= chain@);
                    }
                },
                None => {
                    assert(chain@ + ancestors(m, cur, (n - steps) as nat) =~= chain@);
                    steps = self.slots.len();
                    assert(chain@ + ancestors(m, cur, 0) =~= chain@);
                },
            }
        }
        assert(chain@ + ancestors(m, cur, 0) =~= chain@);
        let ghost full = chain@;
        // fold from the root down
        let mut acc = Transform::default();
        let mut j: usize = chain.len();
        assert(full.subrange(j as int, full.len() as int) =~= Seq::<usize>::empty());
        while j > 0
            invariant
                m == self.model(),
                full == chain@,
                full == ancestors(m, parent, n),
                j <= chain@.len(),
                forall|k: int|
                    0 <= k < full.len() ==> (#[trigger] full[k]) < m.len()
                        && m[full[k] as int].node.local_transforms.len() > 0,
                acc == fold_down(m, full.subrange(j as int, full.len() as int)),
            decreases j,
        {
            j = j - 1;
            let q = chain[j];
            assert(m[q as int] == self.slots@[q as int]@);
            let lt = self.slots[q].node.local_transforms[0];
            acc = compose_transform(lt, acc);
            assert(full.subrange(j as int, full.len() as int).drop_first() =~= full.subrange(
                j as int + 1,
                full.len() as int,
            ));
        }
        assert(full.subrange(0, full.len() as int) =~= full);
        acc
    }

    /// The world transform of every instance of node `i`.
    fn world_transforms_at(&self, i: usize) -> (r: Vec<Transform>)
        requires
            self.wf(),
            i < self.slots@.len(),
        ensures
            r@ == world_transforms_of(self.model(), i as int),
    {
        let ghost m = self.model();
        assert(m[i as int] == self.slots@[i as int]@);
        let parent = self.slots[i].node.parent;
        let pw = self.parent_world_at(parent);
        let n = self.slots[i].node.local_transforms.len();
        let mut out: Vec<Transform> = Vec::new();
        let mut k: usize = 0;
        while k < n
            invariant
                m == self.model(),
                m[i as int] == self.slots@[i as int]@,
                i < self.slots@.len(),
                n == self.slots@[i as int].node.local_transforms@.len(),
                parent == self.slots@[i as int].node.parent,
                pw == parent_world(m, parent, m.len()),
                k <= n,
                out@.len() == k,
                forall|j: int|
                    0 <= j < k ==> #[trigger] out@[j] == world_of(
                        m,
                        i as int,
                        self.slots@[i as int].node.local_transforms@[j],
                    ),
            decreases n - k,
        {
            let t = self.slots[i].node.local_transforms[k];
            let w = compose_transform(t, pw);
            out.push(w);
            k = k + 1;
        }
        assert(out@ =~= world_transforms_of(m, i as int));
        out
    }

    /// Apply one command to the registry; returns whether it asks for a
    /// resort.
    fn apply(&mut self, cmd: ObjUpdateCmd) -> (r: bool)
        requires
            old(self).wf(),
        ensures
            final(self).wf(),
            final(self).queue == old(self).queue,
            (final(self).model(), r) == apply_cmd(old(self).model(), cmd),
    {
        let ghost m = self.model();
        match cmd {
            ObjUpdateCmd::Transform { object_id } => {
                if object_id < self.slots.len() && self.slots[object_id].data.is_some() {
                    assert(m[object_id as int] == self.slots@[object_id as int]@);
                    let w = self.world_transforms_at(object_id);
                    let pw = self.parent_world_at(self.slots[object_id].node.parent);
                    let local_position = self.slots[object_id].node.local_transforms[0].position;
                    let world_position = project_point(
                        matrix_from_trs(pw.scale, pw.rotation, pw.position),
                        local_position,
                    );
                    let (id, mesh, material, gnm) = match &self.slots[object_id].data {
                        Some(d) => (d.id, d.mesh, d.material, d.generate_normal_matrix),
                        None => (0, None, None, false),
                    };
                    self.slots[object_id].data = Some(
                        ObjectData {
                            id,
                            mesh,
                            material,
                            instances: w,
                            world_position,
                            generate_normal_matrix: gnm,
                        },
                    );
                    assert(self.model() =~= apply_cmd(m, cmd).0);
                    true
                } else {
                    if object_id < self.slots.len() {
                        assert(m[object_id as int] == self.slots@[object_id as int]@);
                    }
                    false
                }
            },
            ObjUpdateCmd::Mesh { object_id } => {
                if object_id < self.slots.len() && self.slots[object_id].data.is_some() {
                    assert(m[object_id as int] == self.slots@[object_id as int]@);
                    let node_mesh = self.slots[object_id].node.mesh;
                    match &mut self.slots[object_id].data {
                        Some(d) => {
                            d.mesh = node_mesh;
                        },
                        None => {},
                    }
                    assert(self.model() =~= apply_cmd(m, cmd).0);
                } else {
                    if object_id < self.slots.len() {
                        assert(m[object_id as int] == self.slots@[object_id as int]@);
                    }
                }
                false
            },
            ObjUpdateCmd::Material { object_id } => {
                if object_id < self.slots.len() && self.slots[object_id].data.is_some() {
                    assert(m[object_id as int] == self.slots@[object_id as int]@);
                    let node_material = self.slots[object_id].node.material;
                    match &mut self.slots[object_id].data {
                        Some(d) => {
                            d.material = node_material;
                        },
                        None => {},
                    }
                    assert(self.model() =~= apply_cmd(m, cmd).0);
                } else {
                    if object_id < self.slots.len() {
                        assert(m[object_id as int] == self.slots@[object_id as int]@);
                    }
                }
                false
            },
            ObjUpdateCmd::Destroy { object_id } => {
                if object_id < self.slots.len() {
                    self.slots[object_id].data = None;
                    assert(self.model() =~= apply_cmd(m, cmd).0);
                }
                true
            },
        }
    }

    /// Apply every pending command in FIFO order until the queue is empty.
    /// Returns whether dependent draw lists need to be resorted: some
    /// command changed a live object's transform or destroyed an object.
    pub fn update(&mut self) -> (r: bool)
        requires
            old(self).wf(),
        ensures
            final(self).wf(),
            final(self).queue.pending() == Seq::<ObjUpdateCmd>::empty(),
            final(self).model() == drain(old(self).model(), old(self).queue.pending()).0,
            r == drain(old(self).model(), old(self).queue.pending()).1,
    {
        let ghost m0 = self.model();
        let ghost c0 = self.queue.pending();
        let mut should_sort = false;
        let mut done = false;
        while !done
            invariant
                self.wf(),
                drain(self.model(), self.queue.pending()).0 == drain(m0, c0).0,
                (should_sort || drain(self.model(), self.queue.pending()).1) == drain(m0, c0).1,
                done ==> self.queue.pending().len() == 0,
            decreases self.queue.pending().len() + if done { 0int } else { 1int },
        {
            let ghost cmds = self.queue.pending();
            match self.queue.try_recv() {
                Some(cmd) => {
                    let sort = self.apply(cmd);
                    should_sort = should_sort || sort;
                    assert(cmds[0] == cmd);
                },
                None => {
                    done = true;
                },
            }
        }
        assert(self.queue.pending() =~= Seq::<ObjUpdateCmd>::empty());
        should_sort
    }
}


/// `v` without any occurrence of `x`, order kept.
fn without(v: &Vec<usize>, x: usize) -> (r: Vec<usize>)
    ensures
        r@ == v@.filter(|y: usize| y != x),
{
    let mut r: Vec<usize> = Vec::new();
    let mut i: usize = 0;
    while i < v.len()
        invariant
            i <= v@.len(),
            r@ == v@.take(i as int).filter(|y: usize| y != x),
        decreases v@.len() - i,
    {
        proof {
            reveal(Seq::filter);
            assert(v@.take(i as int + 1).drop_last() =~= v@.take(i as int));
        }
        if v[i] != x {
            r.push(v[i]);
        }
        i = i + 1;
    }
    assert(v@.take(v@.len() as int) =~= v@);
    r
}

/// The primary local transform of node `i` replaced by `t`.
pub open spec fn with_transform0(m: Seq<SlotView>, i: int, t: Transform) -> Seq<SlotView> {
    with_node(m, i, NodeView { local_transforms: m[i].node.local_transforms.update(0, t), ..m[i].node })
}

impl Object {
    /// Update the local transform of this object.
    pub fn set_transform(&self, objects: &mut Objects, transform: LocalTransform)
        requires
            old(objects).wf(),
            self.id < old(objects).slots@.len(),
        ensures
            final(objects).wf(),
            final(objects).model() == with_transform0(old(objects).model(), self.id as int, transform),
            final(objects).queue.pending() == old(objects).queue.pending().push(
                ObjUpdateCmd::Transform { object_id: self.id },
            ),
    {
        let ghost m = objects.model();
        assert(objects.slots@[self.id as int].node.local_transforms@.len() >= 1);
        objects.slots[self.id].node.local_transforms[0] = transform;
        assert(objects.model() =~= with_transform0(m, self.id as int, transform));
        objects.queue.send(ObjUpdateCmd::Transform { object_id: self.id });
    }

    /// Update the local transform's scale of this object.
    pub fn set_scale(&self, objects: &mut Objects, scale: glam::Vec3)
        requires
            old(objects).wf(),
            self.id < old(objects).slots@.len(),
        ensures
            final(objects).wf(),
            final(objects).model() == with_transform0(
                old(objects).model(),
                self.id as int,
                Transform { scale, ..old(objects).model()[self.id as int].node.local_transforms[0] },
            ),
            final(objects).queue.pending() == old(objects).queue.pending().push(
                ObjUpdateCmd::Transform { object_id: self.id },
            ),
    {
        let mut t = self.get_transform(objects);
        t.scale = scale;
        self.set_transform(objects, t);
    }

    /// Update the local transform's rotation of this object.
    pub fn set_rotation(&self, objects: &mut Objects, rotation: glam::Quat)
        requires
            old(objects).wf(),
            self.id < old(objects).slots@.len(),
        ensures
            final(objects).wf(),
            final(objects).model() == with_transform0(
                old(objects).model(),
                self.id as int,
                Transform { rotation, ..old(objects).model()[self.id as int].node.local_transforms[0] },
            ),
            final(objects).queue.pending() == old(objects).queue.pending().push(
                ObjUpdateCmd::Transform { object_id: self.id },
            ),
    {
        let mut t = self.get_transform(objects);
        t.rotation = rotation;
        self.set_transform(objects, t);
    }

    /// Update the local transform's position of this object.
    pub fn set_position(&self, objects: &mut Objects, position: glam::Vec3)
        requires
            old(objects).wf(),
            self.id < old(objects).slots@.len(),
        ensures
            final(objects).wf(),
            final(objects).model() == with_transform0(
                old(objects).model(),
                self.id as int,
                Transform { position, ..old(objects).model()[self.id as int].node.local_transforms[0] },
            ),
            final(objects).queue.pending() == old(objects).queue.pending().push(
                ObjUpdateCmd::Transform { object_id: self.id },
            ),
    {
        let mut t = self.get_transform(objects);
        t.position = position;
        self.set_transform(objects, t);
    }

    /// Get the current local transformation of this object.
    pub fn get_transform(&self, objects: &Objects) -> (r: LocalTransform)
        requires
            objects.wf(),
            self.id < objects.slots@.len(),
        ensures
            r == objects.model()[self.id as int].node.local_transforms[0],
    {
        assert(objects.slots@[self.id as int].node.local_transforms@.len() >= 1);
        objects.slots[self.id].node.local_transforms[0]
    }

    /// Get all the instance transforms of this object.
    pub fn get_local_transforms(&self, objects: &Objects) -> (r: Vec<LocalTransform>)
        requires
            self.id < objects.slots@.len(),
        ensures
            r@ == objects.model()[self.id as int].node.local_transforms,
    {
        let src = &objects.slots[self.id].node.local_transforms;
        let mut r: Vec<LocalTransform> = Vec::new();
        let mut i: usize = 0;
        while i < src.len()
            invariant
                i <= src@.len(),
                r@ == src@.take(i as int),
            decreases src@.len() - i,
        {
            r.push(src[i]);
            assert(src@.take(i as int + 1) =~= src@.take(i as int).push(src@[i as int]));
            i = i + 1;
        }
        assert(src@.take(src@.len() as int) =~= src@);
        r
    }

    /// The world transform of this object's primary instance.
    pub fn get_world_transform(&self, objects: &Objects) -> (r: WorldTransform)
        requires
            objects.wf(),
            self.id < objects.slots@.len(),
        ensures
            r == world_of(
                objects.model(),
                self.id as int,
                objects.model()[self.id as int].node.local_transforms[0],
            ),
    {
        let t = self.get_transform(objects);
        let pw = objects.parent_world_at(objects.slots[self.id].node.parent);
        compose_transform(t, pw)
    }

    /// The world transform of every instance of this object.
    pub fn get_world_transforms(&self, objects: &Objects) -> (r: Vec<WorldTransform>)
        requires
            objects.wf(),
            self.id < objects.slots@.len(),
        ensures
            r@ == world_transforms_of(objects.model(), self.id as int),
    {
        objects.world_transforms_at(self.id)
    }

    /// Update the visibility of this object.
    pub fn set_visible(&self, objects: &mut Objects, is_visible: bool)
        requires
            old(objects).wf(),
            self.id < old(objects).slots@.len(),
        ensures
            final(objects).wf(),
            final(objects).model() == with_node(
                old(objects).model(),
                self.id as int,
                NodeView { is_visible, ..old(objects).model()[self.id as int].node },
            ),
            final(objects).queue == old(objects).queue,
    {
        let ghost m = objects.model();
        objects.slots[self.id].node.is_visible = is_visible;
        assert(objects.model() =~= with_node(m, self.id as int, NodeView { is_visible, ..m[self.id as int].node }));
    }

    /// Update the mesh of this object.
    pub fn set_mesh(&self, objects: &mut Objects, mesh: usize)
        requires
            old(objects).wf(),
            self.id < old(objects).slots@.len(),
        ensures
            final(objects).wf(),
            final(objects).model() == with_node(
                old(objects).model(),
                self.id as int,
                NodeView { mesh: Some(mesh), ..old(objects).model()[self.id as int].node },
            ),
            final(objects).queue.pending() == old(objects).queue.pending().push(
                ObjUpdateCmd::Mesh { object_id: self.id },
            ),
    {
        let ghost m = objects.model();
        objects.slots[self.id].node.mesh = Some(mesh);
        assert(objects.model() =~= with_node(m, self.id as int, NodeView { mesh: Some(mesh), ..m[self.id as int].node }));
        objects.queue.send(ObjUpdateCmd::Mesh { object_id: self.id });
    }

    /// Update the material of this object.
    pub fn set_material(&self, objects: &mut Objects, material: usize)
        requires
            old(objects).wf(),
            self.id < old(objects).slots@.len(),
        ensures
            final(objects).wf(),
            final(objects).model() == with_node(
                old(objects).model(),
                self.id as int,
                NodeView { material: Some(material), ..old(objects).model()[self.id as int].node },
            ),
            final(objects).queue.pending() == old(objects).queue.pending().push(
                ObjUpdateCmd::Material { object_id: self.id },
            ),
    {
        let ghost m = objects.model();
        objects.slots[self.id].node.material = Some(material);
        assert(objects.model() =~= with_node(m, self.id as int, NodeView { material: Some(material), ..m[self.id as int].node }));
        objects.queue.send(ObjUpdateCmd::Material { object_id: self.id });
    }

    /// Nest another object in this object.
    ///
    /// This has the effect of transforming the child object by this object's
    /// transform, until the child is removed with `remove_child` or
    /// `detach_from_parent`.
    pub fn append_child(&self, objects: &mut Objects, child_object: &Object)
        requires
            old(objects).wf(),
            self.id < old(objects).slots@.len(),
            child_object.id < old(objects).slots@.len(),
            self.id != child_object.id,
        ensures
            final(objects).wf(),
            final(objects).model() == appended(old(objects).model(), self.id as int, child_object.id as int),
            final(objects).queue.pending() == old(objects).queue.pending().push(
                ObjUpdateCmd::Transform { object_id: child_object.id },
            ),
    {
        let ghost m = objects.model();
        proof {
            lemma_wf_model(objects);
        }
        objects.slots[self.id].node.children.push(child_object.id);
        objects.slots[child_object.id].node.parent = Some(self.id);
        assert(objects.model() =~= appended(m, self.id as int, child_object.id as int));
        proof {
            let m2 = objects.model();
            assert(model_wf(m));
            assert forall|i: int| 0 <= i < m2.len() implies {
                &&& (#[trigger] m2[i]).node.local_transforms.len() >= 1
                &&& match m2[i].node.parent {
                    Some(p) => p < m2.len(),
                    None => true,
                }
            } by {
                assert(m[i].node.local_transforms.len() >= 1);
                if i != child_object.id {
                    assert(m2[i].node.parent == m[i].node.parent);
                }
            }
            lemma_wf_model(objects);
        }
        objects.queue.send(ObjUpdateCmd::Transform { object_id: child_object.id });
    }

    /// Un-nest another object from this object.
    ///
    /// This restores the child object's local transform as its global
    /// transform.
    pub fn remove_child(&self, objects: &mut Objects, child_object: &Object)
        requires
            old(objects).wf(),
            self.id < old(objects).slots@.len(),
            child_object.id < old(objects).slots@.len(),
            self.id != child_object.id,
        ensures
            final(objects).wf(),
            final(objects).model() == unnested(old(objects).model(), self.id as int, child_object.id as int),
            final(objects).queue.pending() == old(objects).queue.pending().push(
                ObjUpdateCmd::Transform { object_id: child_object.id },
            ),
    {
        let ghost m = objects.model();
        let kept = without(&objects.slots[self.id].node.children, child_object.id);
        objects.slots[self.id].node.children = kept;
        objects.slots[child_object.id].node.parent = None;
        assert(objects.model() =~= unnested(m, self.id as int, child_object.id as int));
        objects.queue.send(ObjUpdateCmd::Transform { object_id: child_object.id });
    }

    /// Un-nest this object from its parent.
    ///
    /// This restores the object's local transform as its global transform.
    pub fn detach_from_parent(&self, objects: &mut Objects)
        requires
            old(objects).wf(),
            self.id < old(objects).slots@.len(),
        ensures
            final(objects).wf(),
            final(objects).model() == detached(old(objects).model(), self.id as int),
            old(objects).model()[self.id as int].node.parent is Some ==> final(objects).queue.pending()
                == old(objects).queue.pending().push(ObjUpdateCmd::Transform { object_id: self.id }),
            old(objects).model()[self.id as int].node.parent is None ==> final(objects).queue
                == old(objects).queue,
    {
        let ghost m = objects.model();
        proof {
            lemma_wf_model(objects);
        }
        assert(objects.slots@[self.id as int].node.local_transforms@.len() >= 1);
        match objects.slots[self.id].node.parent {
            Some(p) => {
                assert(m[self.id as int] == objects.slots@[self.id as int]@);
                let kept = without(&objects.slots[p].node.children, self.id);
                objects.slots[p].node.children = kept;
                objects.slots[self.id].node.parent = None;
                assert(objects.model() =~= detached(m, self.id as int));
                proof {
                    let m2 = objects.model();
                    assert forall|i: int| 0 <= i < m2.len() implies (#[trigger] m2[i]).node.local_transforms
                        == m[i].node.local_transforms && (m2[i].node.parent == m[i].node.parent
                        || m2[i].node.parent is None) by {}
                    lemma_wf_model(objects);
                }
                objects.queue.send(ObjUpdateCmd::Transform { object_id: self.id });
            },
            None => {
                assert(objects.model() =~= detached(m, self.id as int));
            },
        }
    }

    /// Another handle to this object.
    pub fn clone_handle(&self, objects: &mut Objects) -> (r: Object)
        requires
            old(objects).wf(),
            self.id < old(objects).slots@.len(),
            old(objects).slots@[self.id as int].handles < usize::MAX,
        ensures
            r.id == self.id,
            final(objects).wf(),
            final(objects).model() == old(objects).model().update(
                self.id as int,
                SlotView { handles: (old(objects).model()[self.id as int].handles + 1) as usize, ..old(objects).model()[self.id as int] },
            ),
            final(objects).queue == old(objects).queue,
    {
        let ghost m = objects.model();
        objects.slots[self.id].handles = objects.slots[self.id].handles + 1;
        assert(objects.model() =~= m.update(
            self.id as int,
            SlotView { handles: (m[self.id as int].handles + 1) as usize, ..m[self.id as int] },
        ));
        Object { id: self.id }
    }

    /// Release this handle. Releasing the last handle of an object enqueues
    /// exactly one command to destroy it; releasing one of several enqueues
    /// nothing.
    pub fn release(self, objects: &mut Objects)
        requires
            old(objects).wf(),
            self.id < old(objects).slots@.len(),
            old(objects).slots@[self.id as int].handles >= 1,
        ensures
            final(objects).wf(),
            final(objects).model() == old(objects).model().update(
                self.id as int,
                SlotView { handles: (old(objects).model()[self.id as int].handles - 1) as usize, ..old(objects).model()[self.id as int] },
            ),
            old(objects).model()[self.id as int].handles == 1 ==> final(objects).queue.pending()
                == old(objects).queue.pending().push(ObjUpdateCmd::Destroy { object_id: self.id }),
            old(objects).model()[self.id as int].handles > 1 ==> final(objects).queue
                == old(objects).queue,
    {
        let ghost m = objects.model();
        let count = objects.slots[self.id].handles;
        objects.slots[self.id].handles = count - 1;
        assert(objects.model() =~= m.update(
            self.id as int,
            SlotView { handles: (m[self.id as int].handles - 1) as usize, ..m[self.id as int] },
        ));
        if count <= 1 {
            objects.queue.send(ObjUpdateCmd::Destroy { object_id: self.id });
        }
    }
}


/// A copy of `v`.
fn copy_vec<T: Copy>(v: &Vec<T>) -> (r: Vec<T>)
    ensures
        r@ == v@,
{
    let mut r: Vec<T> = Vec::new();
    let mut i: usize = 0;
    while i < v.len()
        invariant
            i <= v@.len(),
            r@ == v@.take(i as int),
        decreases v@.len() - i,
    {
        r.push(v[i]);
        assert(v@.take(i as int + 1) =~= v@.take(i as int).push(v@[i as int]));
        i = i + 1;
    }
    assert(v@.take(v@.len() as int) =~= v@);
    r
}

/// The world transforms of the instances `ts` of a node with no parent.
pub open spec fn root_instances(ts: Seq<Transform>) -> Seq<Transform> {
    Seq::new(ts.len(), |j: int| compose(ts[j], identity_transform()))
}

/// The world transforms of the instances of a node with no parent.
fn instances_of_root(ts: &Vec<Transform>) -> (r: Vec<Transform>)
    ensures
        r@ == root_instances(ts@),
{
    let id = Transform::default();
    let mut r: Vec<Transform> = Vec::new();
    let mut i: usize = 0;
    while i < ts.len()
        invariant
            i <= ts@.len(),
            id == identity_transform(),
            r@.len() == i,
            forall|j: int| 0 <= j < i ==> #[trigger] r@[j] == compose(ts@[j], identity_transform()),
        decreases ts@.len() - i,
    {
        r.push(compose_transform(ts[i], id));
        i = i + 1;
    }
    assert(r@ =~= root_instances(ts@));
    r
}

/// Every node listed in `children` given the parent `p`.
pub open spec fn reparented(m: Seq<SlotView>, children: Seq<usize>, p: usize) -> Seq<SlotView> {
    Seq::new(
        m.len(),
        |j: int|
            if children.contains(j as usize) {
                SlotView { node: NodeView { parent: Some(p), ..m[j].node }, ..m[j] }
            } else {
                m[j]
            },
    )
}

/// The transform commands for each of `children`, in order.
pub open spec fn transform_cmds(children: Seq<usize>) -> Seq<ObjUpdateCmd> {
    children.map_values(|c: usize| ObjUpdateCmd::Transform { object_id: c })
}

impl ObjectBuilder {
    /// The instance transforms of the object this builder makes: the
    /// primary transform, then the added ones.
    pub open spec fn transforms(&self) -> Seq<Transform> {
        seq![self.local_transform] + self.local_transforms@
    }

    /// The slot, with id `id`, of the object this builder makes: it has no
    /// parent, so each instance's world transform is its local transform
    /// composed with the identity.
    pub open spec fn new_slot(&self, id: usize) -> SlotView {
        SlotView {
            node: NodeView {
                mesh: self.mesh,
                material: self.material,
                parent: None,
                children: self.children@,
                is_visible: self.is_visible,
                local_transforms: self.transforms(),
            },
            data: Some(
                DataView {
                    id,
                    mesh: self.mesh,
                    material: self.material,
                    instances: root_instances(self.transforms()),
                    world_position: self.local_transform.position,
                    generate_normal_matrix: self.generate_normal_matrix,
                },
            ),
            handles: 1,
        }
    }

    /// A builder with no mesh, no material, the identity transform, no
    /// children, visible, and no normal matrix.
    pub fn new() -> (r: ObjectBuilder)
        ensures
            r.mesh.is_none(),
            r.material.is_none(),
            r.local_transforms@.len() == 0,
            r.children@.len() == 0,
            r.is_visible,
            !r.generate_normal_matrix,
    {
        ObjectBuilder {
            mesh: None,
            material: None,
            local_transform: Transform::default(),
            local_transforms: Vec::new(),
            children: Vec::new(),
            generate_normal_matrix: false,
            is_visible: true,
        }
    }

    pub fn with_mesh(self, mesh: usize) -> (r: ObjectBuilder)
        ensures
            r == (ObjectBuilder { mesh: Some(mesh), ..self }),
    {
        ObjectBuilder { mesh: Some(mesh), ..self }
    }

    pub fn with_transform(self, t: LocalTransform) -> (r: ObjectBuilder)
        ensures
            r == (ObjectBuilder { local_transform: t, ..self }),
    {
        ObjectBuilder { local_transform: t, ..self }
    }

    /// Add another local transform.
    ///
    /// This object will be rendered once with every transform using instancing.
    pub fn add_transform(self, t: LocalTransform) -> (r: ObjectBuilder)
        ensures
            r.local_transforms@ == self.local_transforms@.push(t),
            r.mesh == self.mesh,
            r.material == self.material,
            r.local_transform == self.local_transform,
            r.children == self.children,
            r.generate_normal_matrix == self.generate_normal_matrix,
            r.is_visible == self.is_visible,
    {
        let mut b = self;
        b.local_transforms.push(t);
        b
    }

    pub fn with_position(self, p: glam::Vec3) -> (r: ObjectBuilder)
        ensures
            r == (ObjectBuilder {
                local_transform: Transform { position: p, ..self.local_transform },
                ..self
            }),
    {
        let mut b = self;
        b.local_transform.position = p;
        b
    }

    pub fn with_rotation(self, rotation: glam::Quat) -> (r: ObjectBuilder)
        ensures
            r == (ObjectBuilder {
                local_transform: Transform { rotation, ..self.local_transform },
                ..self
            }),
    {
        let mut b = self;
        b.local_transform.rotation = rotation;
        b
    }

    pub fn with_scale(self, scale: glam::Vec3) -> (r: ObjectBuilder)
        ensures
            r == (ObjectBuilder {
                local_transform: Transform { scale, ..self.local_transform },
                ..self
            }),
    {
        let mut b = self;
        b.local_transform.scale = scale;
        b
    }

    pub fn with_material(self, material: usize) -> (r: ObjectBuilder)
        ensures
            r == (ObjectBuilder { material: Some(material), ..self }),
    {
        ObjectBuilder { material: Some(material), ..self }
    }

    pub fn with_child(self, child: &Object) -> (r: ObjectBuilder)
        ensures
            r.children@ == self.children@.push(child.id),
            r.mesh == self.mesh,
            r.material == self.material,
            r.local_transform == self.local_transform,
            r.local_transforms == self.local_transforms,
            r.generate_normal_matrix == self.generate_normal_matrix,
            r.is_visible == self.is_visible,
    {
        let mut b = self;
        b.children.push(child.id);
        b
    }

    pub fn with_children(self, children: &[&Object]) -> (r: ObjectBuilder)
        ensures
            r.children@.len() == children@.len(),
            forall|i: int| 0 <= i < children@.len() ==> r.children@[i] == (#[trigger] children@[i]).id,
            r.mesh == self.mesh,
            r.material == self.material,
            r.local_transform == self.local_transform,
            r.local_transforms == self.local_transforms,
            r.generate_normal_matrix == self.generate_normal_matrix,
            r.is_visible == self.is_visible,
    {
        let mut ids: Vec<usize> = Vec::new();
        let mut i: usize = 0;
        while i < children.len()
            invariant
                i <= children@.len(),
                ids@.len() == i,
                forall|j: int| 0 <= j < i ==> ids@[j] == (#[trigger] children@[j]).id,
            decreases children@.len() - i,
        {
            ids.push(children[i].id);
            i = i + 1;
        }
        ObjectBuilder { children: ids, ..self }
    }

    pub fn with_is_visible(self, is_visible: bool) -> (r: ObjectBuilder)
        ensures
            r == (ObjectBuilder { is_visible, ..self }),
    {
        ObjectBuilder { is_visible, ..self }
    }

    pub fn with_generate_normal_matrix(self, should_generate_normal_matrix: bool) -> (r: ObjectBuilder)
        ensures
            r == (ObjectBuilder { generate_normal_matrix: should_generate_normal_matrix, ..self }),
    {
        ObjectBuilder { generate_normal_matrix: should_generate_normal_matrix, ..self }
    }

    /// Build the object into `objects`. Fails, changing nothing, exactly when
    /// no mesh was given. Otherwise the object gets the next slot, with one
    /// handle; each listed child gets it as parent, and a transform command
    /// is enqueued for each child in order.
    pub fn build(self, objects: &mut Objects) -> (r: Result<Object, ObjectBuilderError>)
        requires
            old(objects).wf(),
            old(objects).slots@.len() < usize::MAX,
            forall|j: int|
                0 <= j < self.children@.len() ==> (#[trigger] self.children@[j]) < old(
                    objects,
                ).slots@.len(),
        ensures
            final(objects).wf(),
            self.mesh.is_none() <==> r is Err,
            r is Err ==> r == Err::<Object, ObjectBuilderError>(ObjectBuilderError::MissingMesh)
                && final(objects).model() == old(objects).model() && final(objects).queue == old(
                objects,
            ).queue,
            r is Ok ==> r->Ok_0.id == old(objects).slots@.len() && final(objects).model()
                == reparented(old(objects).model(), self.children@, r->Ok_0.id).push(
                self.new_slot(r->Ok_0.id),
            ) && final(objects).queue.pending() == old(objects).queue.pending() + transform_cmds(
                self.children@,
            ),
    {
        if self.mesh.is_none() {
            return Err(ObjectBuilderError::MissingMesh);
        }
        let ghost m0 = objects.model();
        let ghost queued0 = objects.queue.pending();
        let ghost slot = self.new_slot(objects.slots@.len() as usize);
        let id = objects.slots.len();
        let mut local_transforms: Vec<Transform> = Vec::new();
        local_transforms.push(self.local_transform);
        let mut i: usize = 0;
        while i < self.local_transforms.len()
            invariant
                i <= self.local_transforms@.len(),
                local_transforms@ == seq![self.local_transform] + self.local_transforms@.take(i as int),
            decreases self.local_transforms@.len() - i,
        {
            local_transforms.push(self.local_transforms[i]);
            assert(self.local_transforms@.take(i as int + 1) =~= self.local_transforms@.take(i as int).push(
                self.local_transforms@[i as int],
            ));
            i = i + 1;
        }
        assert(self.local_transforms@.take(self.local_transforms@.len() as int) =~= self.local_transforms@);
        let instances = instances_of_root(&local_transforms);
        let children = copy_vec(&self.children);
        let data = ObjectData {
            id,
            mesh: self.mesh,
            material: self.material,
            instances,
            world_position: self.local_transform.position,
            generate_normal_matrix: self.generate_normal_matrix,
        };
        let node = Node {
            mesh: self.mesh,
            material: self.material,
            parent: None,
            children: self.children,
            is_visible: self.is_visible,
            local_transforms,
        };
        objects.slots.push(Slot { node, data: Some(data), handles: 1 });
        assert(objects.model() =~= m0.push(slot));
        assert(reparented(m0, children@.take(0), id) =~= m0);
        assert(queued0 + transform_cmds(children@.take(0)) =~= queued0);
        let mut k: usize = 0;
        while k < children.len()
            invariant
                id == m0.len(),
                objects.slots@.len() == id + 1,
                slot == self.new_slot(id),
                k <= children@.len(),
                forall|j: int| 0 <= j < children@.len() ==> (#[trigger] children@[j]) < id,
                objects.wf(),
                objects.model() == reparented(m0, children@.take(k as int), id).push(slot),
                objects.queue.pending() == queued0 + transform_cmds(children@.take(k as int)),
            decreases children@.len() - k,
        {
            let c = children[k];
            let ghost before = objects.model();
            objects.slots[c].node.parent = Some(id);
            objects.queue.send(ObjUpdateCmd::Transform { object_id: c });
            proof {
                let t0 = children@.take(k as int);
                let t1 = children@.take(k as int + 1);
                assert(t1 =~= t0.push(c));
                assert forall|j: int| 0 <= j < m0.len() implies (#[trigger] t1.contains(j as usize) <==> (
                t0.contains(j as usize) || j == c as int)) by {
                    if t1.contains(j as usize) {
                        let w = choose|w: int| 0 <= w < t1.len() && t1[w] == j as usize;
                        if w < t0.len() {
                            assert(t0[w] == j as usize);
                        }
                    }
                    if t0.contains(j as usize) {
                        let w = choose|w: int| 0 <= w < t0.len() && t0[w] == j as usize;
                        assert(t1[w] == j as usize);
                    }
                    if j == c as int {
                        assert(t1[k as int] == c);
                    }
                }
                assert(objects.model() =~= before.update(
                    c as int,
                    SlotView { node: NodeView { parent: Some(id), ..before[c as int].node }, ..before[c as int] },
                ));
                assert(objects.model() =~= reparented(m0, t1, id).push(slot));
                assert(transform_cmds(t1) =~= transform_cmds(t0).push(ObjUpdateCmd::Transform { object_id: c }));
                assert(objects.queue.pending() =~= queued0 + transform_cmds(t1));
            }
            k = k + 1;
        }
        assert(children@.take(children@.len() as int) =~= children@);
        Ok(Object { id })
    }
}

} // verus!
