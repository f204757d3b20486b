//! Records that store and update an entire scene in buffers read by the
//! shader stages, and the integer logic of those stages: culling, parent-chain
//! transform resolution and material selection.
use vstd::prelude::*;

use crate::math::{
    add3, mul3, mul_quat, quat_from_ints, quat_of_ints, quat_product, vec3_from_ints,
    vec3_of_ints, vec3_product, vec3_sum, vec4_from_ints, vec4_of_ints, vec4_xyz, xyz,
};

verus! {

/// `u32` representing "null" or "none".
pub const ID_NONE: u32 = 0xffff_ffff;

/// The kind of a light record. On the wire it is a `u32`; `0` terminates a
/// light list and values past `3` are kinds this renderer does not shade.
#[derive(Clone, Copy, Debug, PartialEq, Eq, Structural)]
pub enum LightType {
    EndOfLights,
    PointLight,
    SpotLight,
    DirectionalLight,
    Unsupported(u32),
}

/// The wire value of a light kind.
pub open spec fn light_type_bits(t: LightType) -> u32 {
    match t {
        LightType::EndOfLights => 0,
        LightType::PointLight => 1,
        LightType::SpotLight => 2,
        LightType::DirectionalLight => 3,
        LightType::Unsupported(v) => v,
    }
}

/// A light kind is well formed when its wire value decodes back to it.
pub open spec fn light_type_wf(t: LightType) -> bool {
    match t {
        LightType::Unsupported(v) => v > 3,
        _ => true,
    }
}

impl LightType {
    /// Decode a light kind from its wire value.
    pub fn from_bits(v: u32) -> (r: LightType)
        ensures
            light_type_wf(r),
            light_type_bits(r) == v,
    {
        if v == 0 {
            LightType::EndOfLights
        } else if v == 1 {
            LightType::PointLight
        } else if v == 2 {
            LightType::SpotLight
        } else if v == 3 {
            LightType::DirectionalLight
        } else {
            LightType::Unsupported(v)
        }
    }

    /// The wire value of this light kind.
    pub fn bits(&self) -> (r: u32)
        ensures
            r == light_type_bits(*self),
    {
        match self {
            LightType::EndOfLights => 0,
            LightType::PointLight => 1,
            LightType::SpotLight => 2,
            LightType::DirectionalLight => 3,
            LightType::Unsupported(v) => *v,
        }
    }

    /// A human-readable name of this light kind.
    pub fn name(&self) -> (r: &'static str)
        ensures
            r@ == match *self {
                LightType::EndOfLights => "end of lights"@,
                LightType::PointLight => "point light"@,
                LightType::SpotLight => "spot light"@,
                LightType::DirectionalLight => "directional light"@,
                LightType::Unsupported(_) => "unsupported light"@,
            },
    {
        match self {
            LightType::EndOfLights => "end of lights",
            LightType::PointLight => "point light",
            LightType::SpotLight => "spot light",
            LightType::DirectionalLight => "directional light",
            LightType::Unsupported(_) => "unsupported light",
        }
    }
}

/// The number of lights at the front of a list that are in use: those
/// before the first `EndOfLights`, or all of them when there is none. A count
/// of zero means the scene is unlit.
pub fn active_lights(types: &[LightType]) -> (r: usize)
    ensures
        r <= types@.len(),
        forall|i: int| 0 <= i < r ==> types@[i] != LightType::EndOfLights,
        r < types@.len() ==> types@[r as int] == LightType::EndOfLights,
{
    let mut i: usize = 0;
    while i < types.len()
        invariant
            i <= types@.len(),
            forall|j: int| 0 <= j < i ==> types@[j] != LightType::EndOfLights,
        decreases types@.len() - i,
    {
        if types[i] == LightType::EndOfLights {
            return i;
        }
        i = i + 1;
    }
    i
}

/// Determines the lighting to use in an ubershader. On the wire it is a
/// `u32`; any value past `3` is shaded as unlit.
#[derive(Clone, Copy, Debug, PartialEq, Eq, Structural)]
pub enum LightingModel {
    NoLighting,
    TextLighting,
    PhongLighting,
    PbrLighting,
}

/// The lighting model that a wire value selects.
pub open spec fn lighting_model_of(v: u32) -> LightingModel {
    if v == 1 {
        LightingModel::TextLighting
    } else if v == 2 {
        LightingModel::PhongLighting
    } else if v == 3 {
        LightingModel::PbrLighting
    } else {
        LightingModel::NoLighting
    }
}

/// The wire value of a lighting model.
pub open spec fn lighting_model_bits(m: LightingModel) -> u32 {
    match m {
        LightingModel::NoLighting => 0,
        LightingModel::TextLighting => 1,
        LightingModel::PhongLighting => 2,
        LightingModel::PbrLighting => 3,
    }
}

impl LightingModel {
    /// Decode the lighting model that a wire value selects.
    pub fn from_bits(v: u32) -> (r: LightingModel)
        ensures
            r == lighting_model_of(v),
    {
        if v == 1 {
            LightingModel::TextLighting
        } else if v == 2 {
            LightingModel::PhongLighting
        } else if v == 3 {
            LightingModel::PbrLighting
        } else {
            LightingModel::NoLighting
        }
    }

    /// The wire value of this lighting model.
    pub fn bits(&self) -> (r: u32)
        ensures
            r == lighting_model_bits(*self),
            lighting_model_of(r) == *self,
    {
        match self {
            LightingModel::NoLighting => 0,
            LightingModel::TextLighting => 1,
            LightingModel::PhongLighting => 2,
            LightingModel::PbrLighting => 3,
        }
    }
}

/// Which of a material's texture slots are in use, one bit per slot.
#[derive(Clone, Copy, Debug, PartialEq, Eq, Structural)]
pub struct GpuMaterialConfig {
    pub bits: u32,
}

/// The bit of texture slot `slot` in a material config.
pub open spec fn texture_bit(slot: u32) -> u32 {
    if slot == 0 {
        1
    } else if slot == 1 {
        2
    } else {
        4
    }
}

impl GpuMaterialConfig {
    /// Whether every bit set in `other` is set in `self`.
    pub fn contains(&self, other: GpuMaterialConfig) -> (r: bool)
        ensures
            r == (self.bits & other.bits == other.bits),
    {
        self.bits & other.bits == other.bits
    }

    /// Whether texture0 is used.
    pub fn texture0_used(&self) -> (r: bool)
        ensures
            r == (self.bits & texture_bit(0) != 0),
    {
        let r = self.contains(GpuMaterialConfig { bits: 1 });
        let b = self.bits;
        assert(b & 1u32 == 1u32 <==> b & 1u32 != 0u32) by (bit_vector);
        r
    }

    /// Whether texture1 is used.
    pub fn texture1_used(&self) -> (r: bool)
        ensures
            r == (self.bits & texture_bit(1) != 0),
    {
        let r = self.contains(GpuMaterialConfig { bits: 2 });
        let b = self.bits;
        assert(b & 2u32 == 2u32 <==> b & 2u32 != 0u32) by (bit_vector);
        r
    }

    /// Whether texture2 is used.
    pub fn texture2_used(&self) -> (r: bool)
        ensures
            r == (self.bits & texture_bit(2) != 0),
    {
        let r = self.contains(GpuMaterialConfig { bits: 4 });
        let b = self.bits;
        assert(b & 4u32 == 4u32 <==> b & 4u32 != 0u32) by (bit_vector);
        r
    }
}

/// Represents a material on the GPU: two factor vectors, up to three texture
/// ids (`ID_NONE` when unused) and the lighting model to shade it with.
#[derive(Clone, Copy, Debug)]
pub struct GpuMaterial {
    pub factor0: glam::Vec4,
    pub factor1: glam::Vec4,
    pub texture0: u32,
    pub texture1: u32,
    pub texture2: u32,
    pub lighting_model: LightingModel,
}

/// The material of full intensity (both factors all ones), with no texture
/// and no lighting.
pub open spec fn is_default_material(m: GpuMaterial) -> bool {
    &&& m.factor0 == vec4_of_ints(1, 1, 1, 1)
    &&& m.factor1 == vec4_of_ints(1, 1, 1, 1)
    &&& m.texture0 == ID_NONE
    &&& m.texture1 == ID_NONE
    &&& m.texture2 == ID_NONE
    &&& m.lighting_model == LightingModel::NoLighting
}

impl Default for GpuMaterial {
    /// Full intensity (factors of one), untextured and unlit.
    fn default() -> (r: GpuMaterial)
        ensures
            is_default_material(r),
    {
        GpuMaterial {
            factor0: vec4_from_ints(1, 1, 1, 1),
            factor1: vec4_from_ints(1, 1, 1, 1),
            texture0: ID_NONE,
            texture1: ID_NONE,
            texture2: ID_NONE,
            lighting_model: LightingModel::NoLighting,
        }
    }
}

/// A bundle of GPU components: one drawable node of the scene.
#[derive(Clone, Copy, Debug)]
pub struct GpuEntity {
    /// The id of this entity. `ID_NONE` means this entity is not in use.
    pub id: u32,
    /// The index of the first vertex in this entity's mesh.
    pub mesh_first_vertex: u32,
    /// The number of vertices in this entity's mesh.
    pub mesh_vertex_count: u32,
    /// The index of this entity's material in the material buffer.
    pub material: u32,
    /// The index of this entity's parent. `ID_NONE` means "no parent".
    pub parent: u32,
    /// Whether this entity is visible. `0` is "not visible".
    pub visible: u32,
    pub padding0: [u32; 2],
    /// The local translation of this entity.
    pub position: glam::Vec4,
    /// The local scale of this entity.
    pub scale: glam::Vec4,
    /// The local rotation of this entity.
    pub rotation: glam::Quat,
}

impl Default for GpuEntity {
    /// A dead, visible root entity with no mesh, no material and the identity
    /// transform.
    fn default() -> (r: GpuEntity)
        ensures
            r.id == ID_NONE,
            r.mesh_first_vertex == 0,
            r.mesh_vertex_count == 0,
            r.material == ID_NONE,
            r.parent == ID_NONE,
            r.visible == 1,
            r.padding0 == [0u32, 0u32],
            r.position == vec4_of_ints(0, 0, 0, 0),
            r.scale == vec4_of_ints(1, 1, 1, 1),
            r.rotation == quat_of_ints(0, 0, 0, 1),
    {
        GpuEntity {
            id: ID_NONE,
            mesh_first_vertex: 0,
            mesh_vertex_count: 0,
            material: ID_NONE,
            position: vec4_from_ints(0, 0, 0, 0),
            scale: vec4_from_ints(1, 1, 1, 1),
            rotation: quat_from_ints(0, 0, 0, 1),
            visible: 1,
            padding0: [0, 0],
            parent: ID_NONE,
        }
    }
}

/// Resolved world transform: position, rotation and scale.
pub type WorldTrs = (glam::Vec3, glam::Quat, glam::Vec3);

/// The identity transform: zero position, identity rotation, unit scale.
pub open spec fn identity_trs() -> WorldTrs {
    (vec3_of_ints(0, 0, 0), quat_of_ints(0, 0, 0, 1), vec3_of_ints(1, 1, 1))
}

/// One step of the parent-chain walk: the transform accumulated so far,
/// composed with the local transform of entity `e`.
pub open spec fn accumulate(acc: WorldTrs, e: GpuEntity) -> WorldTrs {
    (
        vec3_sum(acc.0, vec4_xyz(e.position)),
        quat_product(e.rotation, acc.1),
        vec3_product(acc.2, vec4_xyz(e.scale)),
    )
}

/// The transform accumulated by walking the parent chain from `index`, at
/// most `fuel` steps, until the parent index falls outside the buffer.
pub open spec fn chain_fold(entities: Seq<GpuEntity>, index: int, fuel: nat, acc: WorldTrs) -> WorldTrs
    decreases fuel,
{
    if fuel == 0 || !(0 <= index < entities.len()) {
        acc
    } else {
        chain_fold(
            entities,
            entities[index].parent as int,
            (fuel - 1) as nat,
            accumulate(acc, entities[index]),
        )
    }
}

/// The parent chain from `index` reaches a root (a parent index outside the
/// buffer) after exactly `depth` entities.
pub open spec fn chain_depth(entities: Seq<GpuEntity>, index: int, depth: nat) -> bool
    decreases depth,
{
    if depth == 0 {
        !(0 <= index < entities.len())
    } else {
        0 <= index < entities.len() && chain_depth(
            entities,
            entities[index].parent as int,
            (depth - 1) as nat,
        )
    }
}

/// The fold of local transforms from leaf to root along an explicit list of
/// entity indices.
pub open spec fn fold_indices(entities: Seq<GpuEntity>, path: Seq<int>, acc: WorldTrs) -> WorldTrs
    decreases path.len(),
{
    if path.len() == 0 {
        acc
    } else {
        fold_indices(entities, path.drop_first(), accumulate(acc, entities[path[0]]))
    }
}

/// The indices visited by the parent chain from `index`, leaf first, at most
/// `fuel` of them.
pub open spec fn chain_indices(entities: Seq<GpuEntity>, index: int, fuel: nat) -> Seq<int>
    decreases fuel,
{
    if fuel == 0 || !(0 <= index < entities.len()) {
        seq![]
    } else {
        seq![index] + chain_indices(entities, entities[index].parent as int, (fuel - 1) as nat)
    }
}

/// World transform of a chain of depth `d`: when the parent chain from
/// `index` reaches a root after `d` entities, walking it with any larger step
/// budget visits exactly those `d` entities, each the parent of the one
/// before, and the resolved transform is the fold of their local transforms
/// (positions summed, rotations and scales multiplied) over that list.
pub proof fn lemma_world_transform_fold(
    entities: Seq<GpuEntity>,
    index: int,
    d: nat,
    fuel: nat,
    acc: WorldTrs,
)
    requires
        chain_depth(entities, index, d),
        d <= fuel,
    ensures
        chain_indices(entities, index, fuel).len() == d,
        d > 0 ==> chain_indices(entities, index, fuel)[0] == index,
        forall|k: int|
            0 <= k < d - 1 ==> #[trigger] chain_indices(entities, index, fuel)[k + 1]
                == entities[chain_indices(entities, index, fuel)[k]].parent as int,
        chain_fold(entities, index, fuel, acc) == fold_indices(
            entities,
            chain_indices(entities, index, fuel),
            acc,
        ),
    decreases d,
{
    let path = chain_indices(entities, index, fuel);
    if d > 0 {
        let p = entities[index].parent as int;
        let rest = chain_indices(entities, p, (fuel - 1) as nat);
        lemma_world_transform_fold(entities, p, (d - 1) as nat, (fuel - 1) as nat, accumulate(acc, entities[index]));
        assert(path == seq![index] + rest);
        assert(path.drop_first() == rest);
        assert forall|k: int| 0 <= k < d - 1 implies #[trigger] path[k + 1] == entities[path[k]].parent as int by {
            if k > 0 {
                assert(path[k + 1] == rest[k]);
                assert(path[k] == rest[k - 1]);
            }
        }
    }
}

impl GpuEntity {
    /// Whether this entity is in use.
    pub fn is_alive(&self) -> (r: bool)
        ensures
            r == (self.id != ID_NONE),
    {
        self.id != ID_NONE
    }

    /// Compose, onto `acc`, the local transforms met by walking the parent
    /// chain from entity `index` until the parent index falls outside the
    /// buffer. The walk takes at most `entities.len()` steps, which an
    /// acyclic chain never exceeds.
    pub fn accumulate_world_transform(entities: &[GpuEntity], index: usize, acc: WorldTrs) -> (r:
        WorldTrs)
        ensures
            r == chain_fold(entities@, index as int, entities@.len(), acc),
    {
        let mut position = acc.0;
        let mut rotation = acc.1;
        let mut scale = acc.2;
        let mut cur: usize = index;
        let mut steps: usize = 0;
        while cur < entities.len() && steps < entities.len()
            invariant
                steps <= entities@.len(),
                chain_fold(entities@, cur as int, (entities@.len() - steps) as nat, (position, rotation, scale))
                    == chain_fold(entities@, index as int, entities@.len(), acc),
            decreases entities@.len() - steps,
        {
            let entity = entities[cur];
            position = add3(position, xyz(entity.position));
            scale = mul3(scale, xyz(entity.scale));
            rotation = mul_quat(entity.rotation, rotation);
            cur = entity.parent as usize;
            steps = steps + 1;
        }
        (position, rotation, scale)
    }

    /// Return the position, rotation and scale that describe this entity's
    /// transform in world space, starting from the identity transform.
    pub fn get_world_transform(&self, entities: &[GpuEntity]) -> (r: WorldTrs)
        requires
            (self.id as int) < entities@.len(),
        ensures
            r == chain_fold(entities@, self.id as int, entities@.len(), identity_trs()),
    {
        let acc = (vec3_from_ints(0, 0, 0), quat_from_ints(0, 0, 0, 1), vec3_from_ints(1, 1, 1));
        Self::accumulate_world_transform(entities, self.id as usize, acc)
    }
}

/// Indirect draw parameters for one entity.
#[derive(Clone, Copy, Debug, Default, PartialEq, Eq, Structural)]
pub struct DrawIndirect {
    pub vertex_count: u32,
    pub instance_count: u32,
    pub base_vertex: u32,
    pub base_instance: u32,
}

/// The draw call that culling produces for entity `e` at buffer index `i`:
/// nothing for a dead or invisible entity, one instance of its mesh range
/// otherwise.
pub open spec fn culled_draw(e: GpuEntity, i: u32) -> DrawIndirect {
    if e.id != ID_NONE && e.visible != 0 {
        DrawIndirect {
            vertex_count: e.mesh_vertex_count,
            instance_count: 1,
            base_vertex: e.mesh_first_vertex,
            base_instance: i,
        }
    } else {
        DrawIndirect { vertex_count: 0, instance_count: 0, base_vertex: 0, base_instance: i }
    }
}

/// Compute the draw call of one entity at buffer index `index`.
pub fn cull_entity(entity: &GpuEntity, index: u32) -> (r: DrawIndirect)
    ensures
        r == culled_draw(*entity, index),
        entity.id == ID_NONE || entity.visible == 0 ==> r.vertex_count == 0 && r.instance_count == 0,
        entity.id != ID_NONE && entity.visible != 0 ==> r.vertex_count == entity.mesh_vertex_count
            && r.instance_count == 1,
{
    // when the vertex count and/or instance count is 0, it effectively filters
    // the draw call
    let mut call = DrawIndirect {
        vertex_count: 0,
        instance_count: 0,
        base_vertex: 0,
        base_instance: index,
    };
    let is_visible = entity.visible != 0;
    if entity.is_alive() && is_visible {
        call.instance_count = 1;
        call.base_vertex = entity.mesh_first_vertex;
        call.vertex_count = entity.mesh_vertex_count;
    }
    call
}

/// Compute the draw call for the entity of invocation `global_id[0]`.
/// Invocations past the entity count do nothing.
pub fn compute_cull_entities(entities: &[GpuEntity], draws: &mut [DrawIndirect], global_id: [u32; 3])
    requires
        (global_id[0] as int) < entities@.len() ==> (global_id[0] as int) < old(draws)@.len(),
    ensures
        (global_id[0] as int) < entities@.len() ==> final(draws)@ == old(draws)@.update(
            global_id[0] as int,
            culled_draw(entities@[global_id[0] as int], global_id[0]),
        ),
        (global_id[0] as int) >= entities@.len() ==> final(draws)@ == old(draws)@,
{
    let i = global_id[0] as usize;
    if i >= entities.len() {
        return;
    }
    let call = cull_entity(&entities[i], global_id[0]);
    draws[i] = call;
}

/// The material that entity `e` is drawn with: the default material when its
/// material id is `ID_NONE`, else the record at that index.
pub fn entity_material(entity: &GpuEntity, materials: &[GpuMaterial]) -> (r: GpuMaterial)
    requires
        entity.material == ID_NONE || (entity.material as int) < materials@.len(),
    ensures
        entity.material == ID_NONE ==> is_default_material(r),
        entity.material != ID_NONE ==> r == materials@[entity.material as int],
{
    if entity.material == ID_NONE {
        GpuMaterial::default()
    } else {
        materials[entity.material as usize]
    }
}

} // verus!
