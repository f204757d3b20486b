use glam::{Mat4, Quat, Vec3};
use renderling::object::{ObjUpdateCmd, Object, ObjectBuilder, ObjectBuilderError, Objects, Transform};

fn drain_cmds(objects: &mut Objects) -> Vec<ObjUpdateCmd> {
    let mut out = vec![];
    while let Some(cmd) = objects.next_command() {
        out.push(cmd);
    }
    out
}

fn build_at(objects: &mut Objects, p: Vec3) -> Object {
    ObjectBuilder::new()
        .with_mesh(0)
        .with_position(p)
        .build(objects)
        .unwrap()
}

#[test]
fn build_without_mesh_fails() {
    let mut objects = Objects::new();
    let r = ObjectBuilder::new().with_material(1).build(&mut objects);
    assert!(matches!(r, Err(ObjectBuilderError::MissingMesh)));
    assert_eq!(objects.len(), 0);
    assert!(drain_cmds(&mut objects).is_empty());
    assert_eq!(ObjectBuilderError::MissingMesh.message(), "object builder is missing `mesh`");
}

#[test]
fn build_sets_up_node_and_data() {
    let mut objects = Objects::new();
    let t2 = Transform { position: Vec3::X, rotation: Quat::IDENTITY, scale: Vec3::ONE };
    let obj = ObjectBuilder::new()
        .with_mesh(7)
        .with_material(2)
        .with_position(Vec3::new(1.0, 2.0, 3.0))
        .with_scale(Vec3::splat(2.0))
        .add_transform(t2)
        .with_is_visible(false)
        .build(&mut objects)
        .unwrap();
    assert_eq!(obj.id, 0);
    assert_eq!(objects.len(), 1);
    let data = objects.iter()[0].unwrap();
    assert_eq!(data.mesh, Some(7));
    assert_eq!(data.material, Some(2));
    assert_eq!(data.instances.len(), 2);
    assert_eq!(data.world_position, Vec3::new(1.0, 2.0, 3.0));
    assert_eq!(obj.get_local_transforms(&objects).len(), 2);
    assert_eq!(obj.get_transform(&objects).scale, Vec3::splat(2.0));
    assert!(!objects.slots[0].node.is_visible);
    assert!(drain_cmds(&mut objects).is_empty());
}

#[test]
fn build_with_children_reparents_them() {
    let mut objects = Objects::new();
    let a = build_at(&mut objects, Vec3::X);
    let b = build_at(&mut objects, Vec3::Y);
    let parent = ObjectBuilder::new()
        .with_mesh(0)
        .with_position(Vec3::new(10.0, 0.0, 0.0))
        .with_children(&[&a, &b])
        .build(&mut objects)
        .unwrap();
    assert_eq!(objects.slots[a.id].node.parent, Some(parent.id));
    assert_eq!(objects.slots[b.id].node.parent, Some(parent.id));
    assert_eq!(
        drain_cmds(&mut objects),
        vec![
            ObjUpdateCmd::Transform { object_id: a.id },
            ObjUpdateCmd::Transform { object_id: b.id }
        ]
    );
    assert_eq!(a.get_world_transform(&objects).position, Vec3::new(11.0, 0.0, 0.0));
}

#[test]
fn setters_enqueue_commands() {
    let mut objects = Objects::new();
    let o = build_at(&mut objects, Vec3::ZERO);
    o.set_position(&mut objects, Vec3::new(4.0, 5.0, 6.0));
    o.set_scale(&mut objects, Vec3::splat(3.0));
    o.set_rotation(&mut objects, Quat::from_rotation_x(1.0));
    o.set_visible(&mut objects, false);
    o.set_mesh(&mut objects, 9);
    o.set_material(&mut objects, 4);
    let t = o.get_transform(&objects);
    assert_eq!(t.position, Vec3::new(4.0, 5.0, 6.0));
    assert_eq!(t.scale, Vec3::splat(3.0));
    let id = o.id;
    assert_eq!(
        drain_cmds(&mut objects),
        vec![
            ObjUpdateCmd::Transform { object_id: id },
            ObjUpdateCmd::Transform { object_id: id },
            ObjUpdateCmd::Transform { object_id: id },
            ObjUpdateCmd::Mesh { object_id: id },
            ObjUpdateCmd::Material { object_id: id },
        ]
    );
}

#[test]
fn update_applies_commands_in_order() {
    let mut objects = Objects::new();
    let o = build_at(&mut objects, Vec3::ZERO);
    assert!(!objects.update());
    o.set_mesh(&mut objects, 5);
    assert!(!objects.update());
    assert_eq!(objects.iter()[0].unwrap().mesh, Some(5));
    o.set_material(&mut objects, 6);
    o.set_position(&mut objects, Vec3::new(1.0, 1.0, 1.0));
    o.set_position(&mut objects, Vec3::new(2.0, 2.0, 2.0));
    assert!(objects.update());
    let data = objects.iter()[0].unwrap();
    assert_eq!(data.material, Some(6));
    assert_eq!(data.world_position, Vec3::new(2.0, 2.0, 2.0));
    assert_eq!(data.instances[0].position, Vec3::new(2.0, 2.0, 2.0));
    assert!(drain_cmds(&mut objects).is_empty());
}

#[test]
fn sole_handle_release_enqueues_one_destroy() {
    let mut objects = Objects::new();
    let o = build_at(&mut objects, Vec3::ZERO);
    let id = o.id;
    o.release(&mut objects);
    assert_eq!(drain_cmds(&mut objects), vec![ObjUpdateCmd::Destroy { object_id: id }]);
}

#[test]
fn clone_release_enqueues_nothing_until_last() {
    let mut objects = Objects::new();
    let o = build_at(&mut objects, Vec3::ZERO);
    let id = o.id;
    let c = o.clone_handle(&mut objects);
    c.release(&mut objects);
    assert!(drain_cmds(&mut objects).is_empty());
    assert!(objects.iter()[0].is_some());
    o.release(&mut objects);
    let cmds = drain_cmds(&mut objects);
    assert_eq!(cmds, vec![ObjUpdateCmd::Destroy { object_id: id }]);
}

#[test]
fn destroy_frees_data_at_next_update() {
    let mut objects = Objects::new();
    let o = build_at(&mut objects, Vec3::ZERO);
    let keep = build_at(&mut objects, Vec3::ONE);
    o.release(&mut objects);
    assert!(objects.iter()[0].is_some());
    assert!(objects.update());
    let entries = objects.iter();
    assert!(entries[0].is_none());
    assert!(entries[1].is_some());
    assert_eq!(keep.id, 1);
}

#[test]
fn parenting_round_trip() {
    let mut objects = Objects::new();
    let parent = ObjectBuilder::new()
        .with_mesh(0)
        .with_position(Vec3::new(5.0, 0.0, 0.0))
        .with_scale(Vec3::splat(2.0))
        .build(&mut objects)
        .unwrap();
    let child = build_at(&mut objects, Vec3::new(1.0, 2.0, 3.0));
    let before = child.get_world_transform(&objects);
    parent.append_child(&mut objects, &child);
    let nested = child.get_world_transform(&objects);
    assert_eq!(nested.position, Vec3::new(6.0, 2.0, 3.0));
    assert_eq!(nested.scale, Vec3::splat(2.0));
    assert_eq!(objects.slots[parent.id].node.children, vec![child.id]);
    child.detach_from_parent(&mut objects);
    let after = child.get_world_transform(&objects);
    assert_eq!(after.position, before.position);
    assert_eq!(after.scale, before.scale);
    assert_eq!(after.rotation, before.rotation);
    assert!(objects.slots[parent.id].node.children.is_empty());
    assert_eq!(
        drain_cmds(&mut objects),
        vec![
            ObjUpdateCmd::Transform { object_id: child.id },
            ObjUpdateCmd::Transform { object_id: child.id }
        ]
    );
    // detaching a root does nothing
    child.detach_from_parent(&mut objects);
    assert!(drain_cmds(&mut objects).is_empty());
}

#[test]
fn remove_child_restores_local_transform() {
    let mut objects = Objects::new();
    let parent = build_at(&mut objects, Vec3::new(0.0, 10.0, 0.0));
    let child = build_at(&mut objects, Vec3::new(1.0, 0.0, 0.0));
    parent.append_child(&mut objects, &child);
    assert!(objects.update());
    assert_eq!(objects.iter()[child.id].unwrap().world_position, Vec3::new(1.0, 10.0, 0.0));
    parent.remove_child(&mut objects, &child);
    assert!(objects.update());
    assert_eq!(objects.iter()[child.id].unwrap().world_position, Vec3::new(1.0, 0.0, 0.0));
    assert!(objects.slots[parent.id].node.children.is_empty());
}

#[test]
fn world_transforms_of_instances() {
    let mut objects = Objects::new();
    let parent = build_at(&mut objects, Vec3::new(0.0, 0.0, 1.0));
    let t2 = Transform { position: Vec3::new(3.0, 0.0, 0.0), rotation: Quat::IDENTITY, scale: Vec3::ONE };
    let child = ObjectBuilder::new().with_mesh(0).add_transform(t2).build(&mut objects).unwrap();
    parent.append_child(&mut objects, &child);
    let ws = child.get_world_transforms(&objects);
    assert_eq!(ws.len(), 2);
    assert_eq!(ws[0].position, Vec3::new(0.0, 0.0, 1.0));
    assert_eq!(ws[1].position, Vec3::new(3.0, 0.0, 1.0));
}

#[test]
fn nested_chain_of_five_folds_transforms() {
    let mut objects = Objects::new();
    let mut chain: Vec<Object> = vec![];
    for i in 0..5 {
        let o = ObjectBuilder::new()
            .with_mesh(0)
            .with_position(Vec3::new(1.0, i as f32, 0.0))
            .with_scale(Vec3::splat(2.0))
            .build(&mut objects)
            .unwrap();
        if let Some(parent) = chain.last() {
            parent.append_child(&mut objects, &o);
        }
        chain.push(o);
    }
    let leaf = chain.last().unwrap();
    let w = leaf.get_world_transform(&objects);
    assert_eq!(w.position, Vec3::new(5.0, 10.0, 0.0));
    assert_eq!(w.scale, Vec3::splat(32.0));
    let root = chain.first().unwrap();
    assert_eq!(root.get_world_transform(&objects).position, Vec3::new(1.0, 0.0, 0.0));
}

#[test]
fn default_transform_is_identity() {
    let t = Transform::default();
    assert_eq!(t.position, Vec3::ZERO);
    assert_eq!(t.rotation, Quat::IDENTITY);
    assert_eq!(t.scale, Vec3::ONE);
}

#[test]
fn world_position_projects_through_parent() {
    let mut objects = Objects::new();
    let rot = Quat::from_rotation_z(std::f32::consts::FRAC_PI_2);
    let parent = ObjectBuilder::new()
        .with_mesh(0)
        .with_position(Vec3::new(10.0, 0.0, 0.0))
        .with_rotation(rot)
        .with_scale(Vec3::splat(2.0))
        .build(&mut objects)
        .unwrap();
    let child = build_at(&mut objects, Vec3::new(1.0, 0.0, 0.0));
    parent.append_child(&mut objects, &child);
    assert!(objects.is_well_formed());
    assert!(objects.update());
    let parent_world = parent.get_world_transform(&objects);
    let m = Mat4::from_scale_rotation_translation(
        parent_world.scale,
        parent_world.rotation,
        parent_world.position,
    );
    let expected = m.project_point3(Vec3::new(1.0, 0.0, 0.0));
    let got = objects.iter()[child.id].unwrap().world_position;
    assert_eq!(got, expected);
    assert!(got.abs_diff_eq(Vec3::new(10.0, 2.0, 0.0), 1e-5));
    // the instances themselves compose component-wise
    assert_eq!(objects.iter()[child.id].unwrap().instances[0].position, Vec3::new(11.0, 0.0, 0.0));
}

#[test]
fn malformed_registry_is_detected() {
    let mut objects = Objects::new();
    let o = build_at(&mut objects, Vec3::ZERO);
    assert!(objects.is_well_formed());
    objects.slots[o.id].node.parent = Some(5);
    assert!(!objects.is_well_formed());
}
