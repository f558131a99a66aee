//! When an update can be met in place, what it then writes, and how that
//! relates to a rebuild.

use vstd::prelude::*;
use crate::bytes::{lemma_words_bytes_len, ByteOrder};
use crate::graphics::{instance_data, EntityUpdate, InstanceWrite};
use crate::partition::{
    bucket_instances, lemma_bucket_order_by_structure, lemma_bucket_order_len,
    lemma_members_by_structure, lemma_population_at_most, lemma_slot_addresses_entity,
    meshes_in_table, rebuilt, same_structure, slot_of,
};
use crate::types::{Bucket, Entity, Instance, InstanceMatrices, INSTANCE_SIZE};

verus! {

/// Whether `update` names the entity at registry position `at`.
pub open spec fn targeted(update: EntityUpdate, entities: Seq<Entity>, at: int) -> bool {
    match update {
        EntityUpdate::Nothing => false,
        EntityUpdate::All => true,
        EntityUpdate::Classes(classes) => classes@.contains(entities[at].class),
        EntityUpdate::Ids(ids) => ids@.contains(entities[at].id),
        EntityUpdate::Indexes(range) => range.0 <= at < range.1,
    }
}

/// Whether what the entity records of its place can no longer be written to:
/// no rebuild has placed it, its opacity has since taken it to the other
/// bucket, or its slot lies beyond what a byte offset can address.
pub open spec fn stale(entity: Entity) -> bool {
    match entity.slot {
        None => true,
        Some(slot) => entity.bucket != Bucket::of(entity.opacity) || slot * INSTANCE_SIZE
            > u64::MAX,
    }
}

/// Whether `update` must be met by a rebuild: it asks for one, or one of the
/// entities it names is stale.
pub open spec fn needs_rebuild(update: EntityUpdate, entities: Seq<Entity>) -> bool {
    update is All || exists|at: int|
        0 <= at < entities.len() && targeted(update, entities, at) && stale(
            #[trigger] entities[at],
        )
}

/// The write that brings the record of `entity` up to date.
pub open spec fn write_for(entity: Entity) -> InstanceWrite {
    InstanceWrite {
        bucket: entity.bucket,
        offset: (entity.slot->0 * INSTANCE_SIZE) as u64,
        instance: entity.instance(),
    }
}

/// The writes for the entities below `upto` that `update` names, in registry
/// order.
pub open spec fn patch_writes(update: EntityUpdate, entities: Seq<Entity>, upto: int) -> Seq<
    InstanceWrite,
>
    decreases upto,
{
    if upto <= 0 {
        Seq::empty()
    } else if targeted(update, entities, upto - 1) {
        patch_writes(update, entities, upto - 1).push(write_for(entities[upto - 1]))
    } else {
        patch_writes(update, entities, upto - 1)
    }
}

/// The number of entities below `upto` that `update` names.
pub open spec fn targets(update: EntityUpdate, entities: Seq<Entity>, upto: int) -> nat
    decreases upto,
{
    if upto <= 0 {
        0
    } else {
        let here: nat = if targeted(update, entities, upto - 1) {
            1
        } else {
            0
        };
        targets(update, entities, upto - 1) + here
    }
}

/// Entities that an update does not name add no write.
pub proof fn lemma_patch_writes_skip(
    update: EntityUpdate,
    entities: Seq<Entity>,
    from: int,
    to: int,
)
    requires
        from <= to,
        forall|at: int| from <= at < to ==> !targeted(update, entities, at),
    ensures
        patch_writes(update, entities, to) == patch_writes(update, entities, from),
    decreases to - from,
{
    if from < to {
        lemma_patch_writes_skip(update, entities, from, to - 1);
        if to <= 0 {
            assert(patch_writes(update, entities, to) == patch_writes(update, entities, to - 1));
        }
    }
}

/// An update in place writes once for each entity that it names.
pub proof fn lemma_patch_writes_each_target(update: EntityUpdate, entities: Seq<Entity>, upto: int)
    ensures
        patch_writes(update, entities, upto).len() == targets(update, entities, upto),
    decreases upto,
{
    if upto > 0 {
        lemma_patch_writes_each_target(update, entities, upto - 1);
    }
}

/// An instance record has the size that byte offsets are counted in.
pub proof fn lemma_instance_bytes_len(
    instance: Instance,
    matrices: InstanceMatrices,
    order: ByteOrder,
)
    ensures
        instance.bytes(matrices, order).len() == INSTANCE_SIZE,
{
    lemma_words_bytes_len(instance.color@, order);
    lemma_words_bytes_len(seq![instance.opacity, instance.shinyness], order);
}

/// The contents of an instance buffer take one record size for each
/// instance.
pub proof fn lemma_instance_data_len(
    instances: Seq<Instance>,
    matrices: Seq<InstanceMatrices>,
    order: ByteOrder,
    upto: int,
)
    requires
        0 <= upto,
    ensures
        instance_data(instances, matrices, order, upto).len() == INSTANCE_SIZE * upto,
    decreases upto,
{
    if upto > 0 {
        lemma_instance_data_len(instances, matrices, order, upto - 1);
        lemma_instance_bytes_len(instances[upto - 1], matrices[upto - 1], order);
        assert(INSTANCE_SIZE * (upto - 1) + INSTANCE_SIZE == INSTANCE_SIZE * upto)
            by (nonlinear_arith);
    } else {
        assert(INSTANCE_SIZE * upto == 0) by (nonlinear_arith)
            requires
                upto == 0,
        ;
    }
}

/// In the contents of an instance buffer the record of the instance at
/// `slot` starts at `slot` times the record size.
pub proof fn lemma_instance_data_record(
    instances: Seq<Instance>,
    matrices: Seq<InstanceMatrices>,
    order: ByteOrder,
    upto: int,
    slot: int,
)
    requires
        0 <= slot < upto,
    ensures
        instance_data(instances, matrices, order, upto).subrange(
            slot * INSTANCE_SIZE,
            slot * INSTANCE_SIZE + INSTANCE_SIZE,
        ) == instances[slot].bytes(matrices[slot], order),
    decreases upto,
{
    let data = instance_data(instances, matrices, order, upto);
    let shorter = instance_data(instances, matrices, order, upto - 1);
    let last = instances[upto - 1].bytes(matrices[upto - 1], order);
    let start = slot * INSTANCE_SIZE;
    lemma_instance_bytes_len(instances[upto - 1], matrices[upto - 1], order);
    lemma_instance_data_len(instances, matrices, order, upto - 1);
    assert(shorter.len() == (upto - 1) * INSTANCE_SIZE) by (nonlinear_arith)
        requires
            shorter.len() == INSTANCE_SIZE * (upto - 1),
    ;
    if slot < upto - 1 {
        lemma_instance_data_record(instances, matrices, order, upto - 1, slot);
        assert(0 <= start && start + INSTANCE_SIZE <= (upto - 1) * INSTANCE_SIZE)
            by (nonlinear_arith)
            requires
                0 <= slot < upto - 1,
                start == slot * INSTANCE_SIZE,
        ;
        assert(data.subrange(start, start + INSTANCE_SIZE) =~= shorter.subrange(
            start,
            start + INSTANCE_SIZE,
        ));
    } else {
        assert(start == shorter.len());
        assert(data.subrange(start, start + INSTANCE_SIZE) =~= last);
    }
}

/// Let a rebuild place the registry `before`, and let
/// entities then change in anything but their mesh and the bucket that their
/// opacity asks for. For an entity that still records what the rebuild gave
/// it, the write of an in-place update puts at its offset the very bytes that
/// a fresh rebuild of the changed registry holds there, whatever function
/// `matrices_of` computes the matrices of an instance.
pub proof fn lemma_patch_matches_rebuild(
    meshes: int,
    before: Seq<Entity>,
    changed: Seq<Entity>,
    at: int,
    matrices_of: spec_fn(Instance) -> InstanceMatrices,
    order: ByteOrder,
)
    requires
        same_structure(before, changed),
        changed.len() <= u32::MAX,
        0 <= at < changed.len(),
        changed[at].mesh < meshes,
        changed[at].slot == rebuilt(before, meshes)[at].slot,
        changed[at].bucket == rebuilt(before, meshes)[at].bucket,
    ensures
        !stale(changed[at]),
        ({
            let write = write_for(changed[at]);
            let array = bucket_instances(changed, write.bucket, meshes);
            let matrices = Seq::new(array.len(), |i: int| matrices_of(array[i]));
            let contents = instance_data(array, matrices, order, array.len() as int);
            &&& write.bucket == Bucket::of(changed[at].opacity)
            &&& write.offset == slot_of(changed, at) * INSTANCE_SIZE
            &&& write.offset + INSTANCE_SIZE <= contents.len()
            &&& contents.subrange(write.offset as int, write.offset + INSTANCE_SIZE)
                == write.instance.bytes(matrices_of(write.instance), order)
        }),
{
    let own = Bucket::of(changed[at].opacity);
    let mesh = changed[at].mesh as int;
    assert(before[at].mesh == changed[at].mesh);
    lemma_bucket_order_by_structure(before, changed, own, mesh);
    lemma_members_by_structure(before, changed, mesh, own, at);
    assert(slot_of(before, at) == slot_of(changed, at));
    lemma_slot_addresses_entity(changed, meshes, at);
    lemma_bucket_order_len(changed, own, meshes);
    lemma_population_at_most(changed, own, meshes, changed.len() as int);
    let slot = slot_of(changed, at) as int;
    let array = bucket_instances(changed, own, meshes);
    let matrices = Seq::new(array.len(), |i: int| matrices_of(array[i]));
    assert(slot < array.len() <= u32::MAX);
    assert(slot * INSTANCE_SIZE <= u64::MAX) by (nonlinear_arith)
        requires
            0 <= slot <= u32::MAX,
            INSTANCE_SIZE == 120,
    ;
    lemma_instance_data_record(array, matrices, order, array.len() as int, slot);
    lemma_instance_data_len(array, matrices, order, array.len() as int);
    assert(slot * INSTANCE_SIZE + INSTANCE_SIZE <= INSTANCE_SIZE * array.len())
        by (nonlinear_arith)
        requires
            0 <= slot,
            slot + 1 <= array.len(),
    ;
}

/// An update that names an entity whose opacity has taken it out
/// of the bucket it records, be it from opaque to transparent or back, is met
/// by a rebuild and never by a write.
pub proof fn lemma_bucket_change_forces_rebuild(
    update: EntityUpdate,
    entities: Seq<Entity>,
    at: int,
)
    requires
        0 <= at < entities.len(),
        targeted(update, entities, at),
        entities[at].bucket != Bucket::of(entities[at].opacity),
    ensures
        needs_rebuild(update, entities),
        stale(entities[at]),
{
}

/// What a rebuild records is good until an entity changes: right after a
/// rebuild over a table that holds the mesh of every entity, no entity is
/// stale, so that any update but a request for a rebuild is met in place.
pub proof fn lemma_rebuild_leaves_nothing_stale(
    meshes: int,
    entities: Seq<Entity>,
    update: EntityUpdate,
)
    requires
        meshes_in_table(entities, meshes),
        entities.len() <= u32::MAX,
    ensures
        forall|at: int|
            0 <= at < entities.len() ==> !stale(#[trigger] rebuilt(entities, meshes)[at]),
        !(update is All) ==> !needs_rebuild(update, rebuilt(entities, meshes)),
{
    let placed = rebuilt(entities, meshes);
    assert forall|at: int| 0 <= at < entities.len() implies !stale(#[trigger] placed[at]) by {
        assert(entities[at].mesh < meshes);
        let own = Bucket::of(entities[at].opacity);
        lemma_slot_addresses_entity(entities, meshes, at);
        lemma_bucket_order_len(entities, own, meshes);
        lemma_population_at_most(entities, own, meshes, entities.len() as int);
        let slot = slot_of(entities, at) as int;
        assert(slot * INSTANCE_SIZE <= u64::MAX) by (nonlinear_arith)
            requires
                0 <= slot <= u32::MAX,
                INSTANCE_SIZE == 120,
        ;
    }
}

} // verus!
