use glam::{Quat, Vec3, Vec4};
use renderling::bits::{bits, extract, insert};
use renderling::scene::{
    active_lights, compute_cull_entities, cull_entity, entity_material, DrawIndirect, GpuEntity, GpuMaterial,
    GpuMaterialConfig, LightType, LightingModel, ID_NONE,
};

#[test]
fn bits_masks_from_ranges() {
    assert_eq!(bits(0..=0), (0, 0b1));
    assert_eq!(bits(0..=1), (0, 0b11));
    assert_eq!(bits(4..=7), (4, 0xf));
    assert_eq!(bits(0..=31), (0, u32::MAX));
    assert_eq!(bits(28..=31), (28, 0xf));
    // an empty range gives an empty mask, wherever it lies
    assert_eq!(bits(5..=4), (5, 0));
    assert_eq!(bits(50..=40), (50, 0));
}

#[test]
fn bits_round_trip() {
    let pairs = [bits(0..=1), bits(2..=3), bits(4..=7), bits(8..=15), bits(28..=31), bits(0..=31)];
    for start in [0u32, 0xffff_ffff, 0x1234_5678, 0xdead_beef] {
        for pair in pairs {
            for v in [0u32, 1, 2, 3, 0xff, 0xffff_ffff, 0x8000_0001] {
                let mut word = start;
                insert(&mut word, pair, v);
                assert_eq!(extract(word, pair), v & pair.1);
                let field = pair.1.rotate_left(pair.0);
                assert_eq!(word & !field, start & !field);
            }
        }
    }
}

#[test]
fn bits_insert_keeps_neighbours() {
    let mut word = 0u32;
    insert(&mut word, bits(0..=1), 2);
    insert(&mut word, bits(2..=3), 1);
    insert(&mut word, bits(4..=5), 3);
    assert_eq!(word, 0b11_01_10);
    assert_eq!(extract(word, bits(0..=1)), 2);
    assert_eq!(extract(word, bits(2..=3)), 1);
    assert_eq!(extract(word, bits(4..=5)), 3);
    // overwriting a field with a wider value keeps only the field's bits
    insert(&mut word, bits(2..=3), 0b110);
    assert_eq!(word, 0b11_10_10);
}

#[test]
fn material_config_flags() {
    let none = GpuMaterialConfig { bits: 0 };
    assert!(!none.texture0_used() && !none.texture1_used() && !none.texture2_used());
    let c = GpuMaterialConfig { bits: 0b101 };
    assert!(c.texture0_used());
    assert!(!c.texture1_used());
    assert!(c.texture2_used());
    assert!(c.contains(GpuMaterialConfig { bits: 0b100 }));
    assert!(!c.contains(GpuMaterialConfig { bits: 0b110 }));
}

#[test]
fn lighting_model_wire_values() {
    assert_eq!(LightingModel::from_bits(0), LightingModel::NoLighting);
    assert_eq!(LightingModel::from_bits(1), LightingModel::TextLighting);
    assert_eq!(LightingModel::from_bits(2), LightingModel::PhongLighting);
    assert_eq!(LightingModel::from_bits(3), LightingModel::PbrLighting);
    assert_eq!(LightingModel::from_bits(77), LightingModel::NoLighting);
    assert_eq!(LightingModel::PbrLighting.bits(), 3);
}

#[test]
fn light_type_wire_values_and_names() {
    assert_eq!(LightType::from_bits(0), LightType::EndOfLights);
    assert_eq!(LightType::from_bits(3), LightType::DirectionalLight);
    assert_eq!(LightType::from_bits(9), LightType::Unsupported(9));
    assert_eq!(LightType::from_bits(9).bits(), 9);
    assert_eq!(LightType::SpotLight.bits(), 2);
    assert_eq!(LightType::EndOfLights.name(), "end of lights");
    assert_eq!(LightType::PointLight.name(), "point light");
    assert_eq!(LightType::Unsupported(5).name(), "unsupported light");
}

fn entity(id: u32, parent: u32, position: Vec3, scale: Vec3, rotation: Quat) -> GpuEntity {
    let mut e = GpuEntity::default();
    e.id = id;
    e.parent = parent;
    e.position = position.extend(0.0);
    e.scale = scale.extend(1.0);
    e.rotation = rotation;
    e
}

#[test]
fn entity_defaults() {
    let e = GpuEntity::default();
    assert_eq!(e.id, ID_NONE);
    assert_eq!(e.parent, ID_NONE);
    assert_eq!(e.material, ID_NONE);
    assert_eq!(e.visible, 1);
    assert_eq!(e.position, Vec4::ZERO);
    assert_eq!(e.scale, Vec4::ONE);
    assert_eq!(e.rotation, Quat::IDENTITY);
    assert!(!e.is_alive());
}

#[test]
fn world_transform_depth_one() {
    let r = Quat::from_rotation_z(0.5);
    let e = entity(0, ID_NONE, Vec3::new(1.0, 2.0, 3.0), Vec3::new(2.0, 2.0, 2.0), r);
    let ents = [e];
    let (p, q, s) = e.get_world_transform(&ents);
    assert_eq!(p, Vec3::new(1.0, 2.0, 3.0));
    assert_eq!(s, Vec3::new(2.0, 2.0, 2.0));
    assert!(q.abs_diff_eq(r, 1e-6));
    // the walk starts from the identity: a lone entity resolves to itself
    assert_eq!(q, Quat::IDENTITY * r);
}

#[test]
fn world_transform_depth_two() {
    let r0 = Quat::from_rotation_y(0.25);
    let r1 = Quat::from_rotation_x(0.75);
    let root = entity(0, ID_NONE, Vec3::new(10.0, 0.0, 0.0), Vec3::new(2.0, 3.0, 4.0), r0);
    let leaf = entity(1, 0, Vec3::new(1.0, 1.0, 1.0), Vec3::new(0.5, 0.5, 0.5), r1);
    let ents = [root, leaf];
    let (p, q, s) = leaf.get_world_transform(&ents);
    assert_eq!(p, Vec3::new(11.0, 1.0, 1.0));
    assert_eq!(s, Vec3::new(1.0, 1.5, 2.0));
    assert!(q.abs_diff_eq(r0 * r1, 1e-6));
}

#[test]
fn world_transform_depth_five() {
    let mut ents = vec![];
    let mut expected_p = Vec3::ZERO;
    let mut expected_s = Vec3::ONE;
    let mut expected_q = Quat::IDENTITY;
    for i in 0..5u32 {
        let parent = if i == 0 { ID_NONE } else { i - 1 };
        let p = Vec3::new(i as f32, 1.0, -(i as f32));
        let s = Vec3::splat(2.0);
        let q = Quat::from_rotation_z(0.1 * (i + 1) as f32);
        ents.push(entity(i, parent, p, s, q));
        expected_p += p;
        expected_s *= s;
        expected_q = expected_q * q;
    }
    let (p, q, s) = ents[4].get_world_transform(&ents);
    assert_eq!(p, expected_p);
    assert_eq!(p, Vec3::new(10.0, 5.0, -10.0));
    assert_eq!(s, Vec3::splat(32.0));
    assert!(q.abs_diff_eq(expected_q, 1e-5));
}

#[test]
fn world_transform_from_accumulator() {
    let e = entity(0, ID_NONE, Vec3::new(1.0, 0.0, 0.0), Vec3::splat(3.0), Quat::IDENTITY);
    let acc = (Vec3::new(5.0, 5.0, 5.0), Quat::IDENTITY, Vec3::splat(2.0));
    let (p, _, s) = GpuEntity::accumulate_world_transform(&[e], 0, acc);
    assert_eq!(p, Vec3::new(6.0, 5.0, 5.0));
    assert_eq!(s, Vec3::splat(6.0));
    // an index past the buffer is already a root
    let (p, _, s) = GpuEntity::accumulate_world_transform(&[e], 7, acc);
    assert_eq!(p, acc.0);
    assert_eq!(s, acc.2);
}

fn live_entity(visible: u32) -> GpuEntity {
    let mut e = GpuEntity::default();
    e.id = 0;
    e.mesh_first_vertex = 12;
    e.mesh_vertex_count = 36;
    e.visible = visible;
    e
}

#[test]
fn cull_live_visible_entity() {
    let d = cull_entity(&live_entity(1), 4);
    assert_eq!(
        d,
        DrawIndirect { vertex_count: 36, instance_count: 1, base_vertex: 12, base_instance: 4 }
    );
}

#[test]
fn cull_invisible_entity() {
    let d = cull_entity(&live_entity(0), 2);
    assert_eq!(d.vertex_count, 0);
    assert_eq!(d.instance_count, 0);
}

#[test]
fn cull_dead_entity() {
    let mut e = live_entity(1);
    e.id = ID_NONE;
    let d = cull_entity(&e, 0);
    assert_eq!(d.vertex_count, 0);
    assert_eq!(d.instance_count, 0);
}

#[test]
fn cull_pass_writes_one_draw() {
    let ents = [live_entity(1), live_entity(0)];
    let mut draws = [DrawIndirect::default(); 2];
    compute_cull_entities(&ents, &mut draws, [0, 0, 0]);
    compute_cull_entities(&ents, &mut draws, [1, 0, 0]);
    assert_eq!(draws[0].instance_count, 1);
    assert_eq!(draws[0].vertex_count, 36);
    assert_eq!(draws[1].instance_count, 0);
    assert_eq!(draws[1].base_instance, 1);
    // invocations past the entity count do nothing
    let before = draws;
    compute_cull_entities(&ents, &mut draws, [2, 0, 0]);
    compute_cull_entities(&ents, &mut draws, [900, 0, 0]);
    assert_eq!(draws, before);
    // past the entity count nothing is written, even into a shorter buffer
    let mut none: [DrawIndirect; 0] = [];
    compute_cull_entities(&ents, &mut none, [2, 0, 0]);
}

#[test]
fn material_selection() {
    let mut e = GpuEntity::default();
    let mut custom = GpuMaterial::default();
    custom.texture0 = 3;
    custom.lighting_model = LightingModel::PbrLighting;
    let mats = [custom];
    let m = entity_material(&e, &mats);
    assert_eq!(m.texture0, ID_NONE);
    assert_eq!(m.texture1, ID_NONE);
    assert_eq!(m.texture2, ID_NONE);
    assert_eq!(m.lighting_model, LightingModel::NoLighting);
    assert_eq!(m.factor0, Vec4::ONE);
    assert_eq!(m.factor1, Vec4::ONE);
    e.material = 0;
    let m = entity_material(&e, &mats);
    assert_eq!(m.texture0, 3);
    assert_eq!(m.lighting_model, LightingModel::PbrLighting);
}

#[test]
fn active_lights_stop_at_end_marker() {
    assert_eq!(active_lights(&[]), 0);
    assert_eq!(active_lights(&[LightType::EndOfLights, LightType::PointLight]), 0);
    assert_eq!(
        active_lights(&[LightType::DirectionalLight, LightType::SpotLight, LightType::EndOfLights]),
        2
    );
    assert_eq!(active_lights(&[LightType::PointLight, LightType::Unsupported(8)]), 2);
}
