use graphics::bytes::ByteOrder;
use graphics::graphics::{
    replace_instance_entries, setup_entities, setup_instance_buf, EntityUpdate, InstanceWrite,
    PatchOutcome,
};
use graphics::types::{
    Bucket, Entity, Instance, InstanceMatrices, Mesh, Vertex, INSTANCE_SIZE, MAT3_SIZE,
    MAT4_SIZE, ONE, ZERO,
};

fn word(x: f32) -> u32 {
    x.to_bits()
}

fn one_mesh(vertices: usize) -> Mesh {
    Mesh {
        vertices: vec![Vertex::new([ZERO, ZERO, ZERO], [ZERO, ONE, ZERO]); vertices],
        indices: (0..vertices).collect(),
        material: 0,
    }
}

fn placed(id: u32, class: u32, mesh: usize, opacity: f32) -> Entity {
    let mut entity = Entity::new(
        mesh,
        [word(id as f32), ZERO, ZERO],
        [ONE, ZERO, ZERO, ZERO],
        ONE,
        (ONE, ONE, ONE),
        ZERO,
    );
    entity.id = id;
    entity.class = class;
    entity.opacity = word(opacity);
    entity
}

/// Stands for the matrices that the linear algebra would give: any function
/// of the instance will do.
fn stand_in_matrices(instance: &Instance) -> InstanceMatrices {
    let mut model = [0u8; MAT4_SIZE];
    let mut normal = [0u8; MAT3_SIZE];
    for (i, byte) in model.iter_mut().enumerate() {
        *byte = (instance.position[0] as usize + 3 * i) as u8;
    }
    for (i, byte) in normal.iter_mut().enumerate() {
        *byte = (instance.scale[1] as usize + 5 * i) as u8;
    }
    InstanceMatrices { model, normal }
}

fn contents(instances: &Vec<Instance>) -> Vec<u8> {
    let matrices: Vec<InstanceMatrices> = instances.iter().map(stand_in_matrices).collect();
    setup_instance_buf(instances, &matrices, ByteOrder::Little)
}

fn scene() -> (Vec<Mesh>, Vec<Entity>) {
    let meshes = vec![one_mesh(3), one_mesh(4)];
    let mut entities = vec![
        placed(100, 1, 1, 1.0),
        placed(101, 2, 0, 1.0),
        placed(102, 1, 0, 0.5),
        placed(103, 3, 1, 1.0),
        placed(104, 2, 0, 0.25),
        placed(105, 1, 0, 1.0),
    ];
    setup_entities(&meshes, &mut entities, &Vec::new());
    (meshes, entities)
}

/// Counts the rebuilds among the outcomes, as a caller would.
fn patch(
    meshes: &Vec<Mesh>,
    entities: &mut Vec<Entity>,
    update: &EntityUpdate,
    rebuilds: &mut usize,
) -> PatchOutcome {
    let outcome = replace_instance_entries(meshes, entities, &Vec::new(), update);
    if let PatchOutcome::Rebuilt(_) = outcome {
        *rebuilds += 1;
    }
    outcome
}

#[test]
fn a_colour_change_is_patched_with_one_write_and_no_rebuild() {
    let (meshes, mut entities) = scene();
    let before = setup_entities(&meshes, &mut entities.clone(), &Vec::new());
    let size_before = contents(&before.instances).len();
    entities[3].color = (word(0.2), word(0.4), word(0.6));
    let mut rebuilds = 0;
    let registry = entities.clone();
    let outcome = patch(&meshes, &mut entities, &EntityUpdate::Ids(vec![103]), &mut rebuilds);
    assert_eq!(rebuilds, 0);
    assert_eq!(entities, registry);
    let PatchOutcome::InPlace(writes) = outcome else { panic!("rebuilt") };
    assert_eq!(
        writes,
        vec![InstanceWrite {
            bucket: Bucket::Opaque,
            offset: 3 * INSTANCE_SIZE as u64,
            instance: entities[3].to_instance(),
        }]
    );
    assert_eq!(writes[0].instance.color, [word(0.2), word(0.4), word(0.6)]);
    let after = setup_entities(&meshes, &mut entities, &Vec::new());
    assert_eq!(contents(&after.instances).len(), size_before);
}

#[test]
fn a_patch_writes_what_a_fresh_rebuild_holds_at_the_slot() {
    let (meshes, mut entities) = scene();
    entities[2].position = [word(9.0), word(8.0), word(7.0)];
    entities[2].opacity = word(0.75);
    entities[5].shinyness = word(0.3);
    entities[5].scale_partial = Some([word(1.0), word(2.0), word(3.0)]);
    let mut rebuilds = 0;
    let outcome = patch(&meshes, &mut entities, &EntityUpdate::Classes(vec![1]), &mut rebuilds);
    let PatchOutcome::InPlace(writes) = outcome else { panic!("rebuilt") };
    assert_eq!(rebuilds, 0);
    assert_eq!(writes.len(), 3);
    let fresh = setup_entities(&meshes, &mut entities.clone(), &Vec::new());
    let opaque = contents(&fresh.instances);
    let transparent = contents(&fresh.instances_transparent);
    for write in &writes {
        let array = match write.bucket {
            Bucket::Opaque => &opaque,
            Bucket::Transparent => &transparent,
            Bucket::Gaussian => panic!("no entity is a splat"),
        };
        let record = write.instance.to_bytes(&stand_in_matrices(&write.instance), ByteOrder::Little);
        let start = write.offset as usize;
        assert_eq!(&array[start..start + INSTANCE_SIZE], &record[..]);
    }
    let targets: Vec<(Bucket, u64)> = writes.iter().map(|w| (w.bucket, w.offset)).collect();
    assert_eq!(
        targets,
        vec![
            (Bucket::Opaque, 2 * INSTANCE_SIZE as u64),
            (Bucket::Transparent, 0),
            (Bucket::Opaque, INSTANCE_SIZE as u64),
        ]
    );
}

#[test]
fn an_opacity_that_crosses_the_threshold_forces_a_rebuild() {
    let (meshes, mut entities) = scene();
    assert_eq!(entities[1].bucket, Bucket::Opaque);
    entities[1].opacity = word(0.5);
    let expected = setup_entities(&meshes, &mut entities.clone(), &Vec::new());
    let mut rebuilds = 0;
    let outcome = patch(&meshes, &mut entities, &EntityUpdate::Ids(vec![101]), &mut rebuilds);
    assert_eq!(rebuilds, 1);
    assert_eq!(outcome, PatchOutcome::Rebuilt(expected));
    assert_eq!(entities[1].bucket, Bucket::Transparent);
    assert_eq!(entities[1].slot, Some(0));
    assert_eq!(entities[2].slot, Some(1));
    assert_eq!(entities[4].slot, Some(2));
    assert_eq!(entities[5].slot, Some(0));
}

#[test]
fn an_opacity_that_rises_over_the_threshold_forces_a_rebuild_too() {
    let (meshes, mut entities) = scene();
    entities[4].opacity = word(0.99);
    let mut rebuilds = 0;
    let outcome = patch(&meshes, &mut entities, &EntityUpdate::Classes(vec![2]), &mut rebuilds);
    assert_eq!(rebuilds, 1);
    assert!(matches!(outcome, PatchOutcome::Rebuilt(_)));
    assert_eq!(entities[4].bucket, Bucket::Opaque);
}

#[test]
fn a_stale_entity_that_the_update_does_not_name_is_no_reason_to_rebuild() {
    let (meshes, mut entities) = scene();
    entities[1].opacity = word(0.5);
    let mut rebuilds = 0;
    let outcome = patch(&meshes, &mut entities, &EntityUpdate::Ids(vec![100]), &mut rebuilds);
    assert_eq!(rebuilds, 0);
    let PatchOutcome::InPlace(writes) = outcome else { panic!("rebuilt") };
    assert_eq!(writes.len(), 1);
    assert_eq!(entities[1].bucket, Bucket::Opaque);
}

#[test]
fn an_entity_that_was_never_placed_forces_a_rebuild() {
    let (meshes, mut entities) = scene();
    entities.push(placed(106, 9, 1, 1.0));
    assert_eq!(entities[6].slot, None);
    let mut rebuilds = 0;
    let outcome = patch(&meshes, &mut entities, &EntityUpdate::Classes(vec![9]), &mut rebuilds);
    assert_eq!(rebuilds, 1);
    let PatchOutcome::Rebuilt(partition) = outcome else { panic!("patched") };
    assert_eq!(partition.instances.len(), 5);
    assert_eq!(entities[6].slot, Some(4));
}

#[test]
fn one_stale_entity_among_the_named_rebuilds_for_all() {
    let (meshes, mut entities) = scene();
    entities[5].opacity = word(0.1);
    let mut rebuilds = 0;
    let outcome = patch(&meshes, &mut entities, &EntityUpdate::Classes(vec![1]), &mut rebuilds);
    assert_eq!(rebuilds, 1);
    let PatchOutcome::Rebuilt(partition) = outcome else { panic!("patched") };
    assert_eq!(partition.instances.len() + partition.instances_transparent.len(), 6);
    assert_eq!(partition.instances_transparent.len(), 3);
}

#[test]
fn a_range_of_registry_positions_is_patched_in_registry_order() {
    let (meshes, mut entities) = scene();
    let mut rebuilds = 0;
    let outcome = patch(&meshes, &mut entities, &EntityUpdate::Indexes((2, 5)), &mut rebuilds);
    let PatchOutcome::InPlace(writes) = outcome else { panic!("rebuilt") };
    assert_eq!(rebuilds, 0);
    let expected: Vec<InstanceWrite> = entities[2..5]
        .iter()
        .map(|e| InstanceWrite {
            bucket: e.bucket,
            offset: (e.slot.unwrap() * INSTANCE_SIZE) as u64,
            instance: e.to_instance(),
        })
        .collect();
    assert_eq!(writes, expected);
    let empty = patch(&meshes, &mut entities, &EntityUpdate::Indexes((3, 3)), &mut rebuilds);
    assert_eq!(empty, PatchOutcome::InPlace(Vec::new()));
    let all = patch(&meshes, &mut entities, &EntityUpdate::Indexes((0, 6)), &mut rebuilds);
    let PatchOutcome::InPlace(writes) = all else { panic!("rebuilt") };
    assert_eq!(writes.len(), 6);
}

#[test]
fn ids_and_classes_that_no_entity_has_write_nothing() {
    let (meshes, mut entities) = scene();
    let mut rebuilds = 0;
    for update in [
        EntityUpdate::Ids(vec![1, 2, 3]),
        EntityUpdate::Classes(vec![77]),
        EntityUpdate::Ids(Vec::new()),
        EntityUpdate::Classes(Vec::new()),
    ] {
        let outcome = patch(&meshes, &mut entities, &update, &mut rebuilds);
        assert_eq!(outcome, PatchOutcome::InPlace(Vec::new()));
    }
    assert_eq!(rebuilds, 0);
}

#[test]
fn several_ids_and_repeated_ids_write_once_for_each_entity() {
    let (meshes, mut entities) = scene();
    let mut rebuilds = 0;
    let update = EntityUpdate::Ids(vec![105, 100, 105, 102]);
    let outcome = patch(&meshes, &mut entities, &update, &mut rebuilds);
    let PatchOutcome::InPlace(writes) = outcome else { panic!("rebuilt") };
    let offsets: Vec<(Bucket, u64)> = writes.iter().map(|w| (w.bucket, w.offset)).collect();
    assert_eq!(
        offsets,
        vec![
            (Bucket::Opaque, 2 * INSTANCE_SIZE as u64),
            (Bucket::Transparent, 0),
            (Bucket::Opaque, INSTANCE_SIZE as u64),
        ]
    );
}

#[test]
fn nothing_to_update_writes_nothing_and_all_rebuilds() {
    let (meshes, mut entities) = scene();
    let mut rebuilds = 0;
    let outcome = patch(&meshes, &mut entities, &EntityUpdate::Nothing, &mut rebuilds);
    assert_eq!(outcome, PatchOutcome::InPlace(Vec::new()));
    assert_eq!(rebuilds, 0);
    let expected = setup_entities(&meshes, &mut entities.clone(), &Vec::new());
    let outcome = patch(&meshes, &mut entities, &EntityUpdate::All, &mut rebuilds);
    assert_eq!(outcome, PatchOutcome::Rebuilt(expected));
    assert_eq!(rebuilds, 1);
}

#[test]
fn a_slot_beyond_what_an_offset_can_address_forces_a_rebuild() {
    let (meshes, mut entities) = scene();
    entities[0].slot = Some(usize::MAX);
    let mut rebuilds = 0;
    let outcome = patch(&meshes, &mut entities, &EntityUpdate::Ids(vec![100]), &mut rebuilds);
    if usize::BITS == 64 {
        assert_eq!(rebuilds, 1);
        assert!(matches!(outcome, PatchOutcome::Rebuilt(_)));
        assert_eq!(entities[0].slot, Some(2));
    }
}

#[test]
fn push_class_collects_classes_and_replaces_other_requests() {
    let mut update = EntityUpdate::default();
    assert_eq!(update, EntityUpdate::Nothing);
    update.push_class(4);
    assert_eq!(update, EntityUpdate::Classes(vec![4]));
    update.push_class(9);
    update.push_class(4);
    assert_eq!(update, EntityUpdate::Classes(vec![4, 9, 4]));
    let mut ids = EntityUpdate::Ids(vec![1, 2]);
    ids.push_class(5);
    assert_eq!(ids, EntityUpdate::Classes(vec![5]));
    let mut range = EntityUpdate::Indexes((3, 8));
    range.push_class(6);
    assert_eq!(range, EntityUpdate::Classes(vec![6]));
    let mut all = EntityUpdate::All;
    all.push_class(7);
    assert_eq!(all, EntityUpdate::All);
}

#[test]
fn push_id_collects_ids_and_replaces_other_requests() {
    let mut update = EntityUpdate::Nothing;
    update.push_id(4);
    assert_eq!(update, EntityUpdate::Ids(vec![4]));
    update.push_id(9);
    assert_eq!(update, EntityUpdate::Ids(vec![4, 9]));
    let mut classes = EntityUpdate::Classes(vec![1, 2]);
    classes.push_id(5);
    assert_eq!(classes, EntityUpdate::Ids(vec![5]));
    let mut range = EntityUpdate::Indexes((0, 2));
    range.push_id(6);
    assert_eq!(range, EntityUpdate::Ids(vec![6]));
    let mut all = EntityUpdate::All;
    all.push_id(7);
    assert_eq!(all, EntityUpdate::All);
}

#[test]
fn a_clone_of_an_update_asks_for_the_same() {
    for update in [
        EntityUpdate::Nothing,
        EntityUpdate::All,
        EntityUpdate::Classes(vec![3, 1]),
        EntityUpdate::Ids(vec![8]),
        EntityUpdate::Indexes((2, 9)),
    ] {
        assert_eq!(update.clone(), update);
    }
}
