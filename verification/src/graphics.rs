//! The work on the buffers of a scene: the instance arrays built from the
//! registry or patched in place, and the contents of the buffers as bytes.

use std::collections::HashSet;
use vstd::prelude::*;
use vstd::std_specs::hash::group_hash_axioms;
use crate::bytes::{extend_from_bytes, word_bytes, word_to_bytes, ByteOrder};
use crate::gauss::{Gaussian, GaussianInstance};
use crate::partition::{
    bucket_instances, bucket_order, draw_ranges, gauss_instances, instances_at,
    lemma_bucket_order_len, lemma_members_prefix, lemma_population_bound,
    lemma_vertex_start_grows, members, rebuilt, rebuilt_entity, vertex_start,
};
use crate::patch::{lemma_patch_writes_skip, needs_rebuild, patch_writes, stale, targeted};
use crate::types::{
    Bucket, Entity, Instance, InstanceMatrices, Mesh, Vertex, INSTANCE_SIZE,
};

verus! {

/// The extent of a change to the registry, and with it the work that the
/// instance arrays need.
#[derive(Debug, PartialEq)]
pub enum EntityUpdate {
    /// Nothing changed.
    Nothing,
    /// Rebuild the instance arrays. This is always safe.
    All,
    /// Update the entities of these classes in place.
    Classes(Vec<u32>),
    /// Update the entities with these ids in place.
    Ids(Vec<u32>),
    /// Update the entities at the registry positions from the first number up
    /// to, not including, the second.
    Indexes((usize, usize)),
}

impl EntityUpdate {
    /// Whether `other` asks for the same entities in the same order.
    pub open spec fn same_as(self, other: EntityUpdate) -> bool {
        match self {
            EntityUpdate::Nothing => other is Nothing,
            EntityUpdate::All => other is All,
            EntityUpdate::Classes(classes) => other matches EntityUpdate::Classes(others)
                && others@ == classes@,
            EntityUpdate::Ids(ids) => other matches EntityUpdate::Ids(others) && others@ == ids@,
            EntityUpdate::Indexes(range) => other == EntityUpdate::Indexes(range),
        }
    }
}

impl Clone for EntityUpdate {
    fn clone(&self) -> (copy: EntityUpdate)
        ensures
            self.same_as(copy),
    {
        match self {
            EntityUpdate::Nothing => EntityUpdate::Nothing,
            EntityUpdate::All => EntityUpdate::All,
            EntityUpdate::Classes(classes) => EntityUpdate::Classes(classes.clone()),
            EntityUpdate::Ids(ids) => EntityUpdate::Ids(ids.clone()),
            EntityUpdate::Indexes(range) => EntityUpdate::Indexes((range.0, range.1)),
        }
    }
}

impl Default for EntityUpdate {
    fn default() -> (update: EntityUpdate)
        ensures
            update is Nothing,
    {
        EntityUpdate::Nothing
    }
}

impl EntityUpdate {
    /// Asks for the entities of `class` too. A request for a rebuild stays
    /// one; a request by id or by position is replaced.
    pub fn push_class(&mut self, class: u32)
        ensures
            match *old(self) {
                EntityUpdate::All => *final(self) is All,
                EntityUpdate::Classes(classes) => (*final(self)) matches EntityUpdate::Classes(now)
                    && now@ == classes@.push(class),
                _ => (*final(self)) matches EntityUpdate::Classes(now) && now@ == seq![class],
            },
    {
        match self {
            EntityUpdate::All => (),
            EntityUpdate::Classes(classes) => classes.push(class),
            _ => {
                let mut classes = Vec::new();
                classes.push(class);
                *self = EntityUpdate::Classes(classes);
            },
        }
    }

    /// Asks for the entity with `id` too. A request for a rebuild stays one;
    /// a request by class or by position is replaced.
    pub fn push_id(&mut self, id: u32)
        ensures
            match *old(self) {
                EntityUpdate::All => *final(self) is All,
                EntityUpdate::Ids(ids) => (*final(self)) matches EntityUpdate::Ids(now) && now@
                    == ids@.push(id),
                _ => (*final(self)) matches EntityUpdate::Ids(now) && now@ == seq![id],
            },
    {
        match self {
            EntityUpdate::All => (),
            EntityUpdate::Ids(ids) => ids.push(id),
            _ => {
                let mut ids = Vec::new();
                ids.push(id);
                *self = EntityUpdate::Ids(ids);
            },
        }
    }
}

/// The instance arrays of a scene, and for each mesh the range of each array
/// that it is drawn from.
#[derive(Debug, PartialEq, Eq)]
pub struct Partition {
    /// The opaque instances, by mesh and then by registry order.
    pub instances: Vec<Instance>,
    /// The transparent instances, in the same order.
    pub instances_transparent: Vec<Instance>,
    /// One instance for each splat.
    pub instances_gauss: Vec<GaussianInstance>,
    /// For each mesh: vertex offset, first opaque instance, number of opaque
    /// instances.
    pub mesh_mappings: Vec<(i32, u32, u32)>,
    /// For each mesh: vertex offset, first transparent instance, number of
    /// transparent instances.
    pub mesh_mappings_transparent: Vec<(i32, u32, u32)>,
}

impl Partition {
    /// Whether this is the partition of the given scene.
    pub open spec fn is_partition_of(
        self,
        meshes: Seq<Mesh>,
        entities: Seq<Entity>,
        gaussians: Seq<Gaussian>,
    ) -> bool {
        &&& self.instances@ == bucket_instances(entities, Bucket::Opaque, meshes.len() as int)
        &&& self.instances_transparent@ == bucket_instances(
            entities,
            Bucket::Transparent,
            meshes.len() as int,
        )
        &&& self.instances_gauss@ == gauss_instances(gaussians)
        &&& self.mesh_mappings@ == draw_ranges(meshes, entities, Bucket::Opaque)
        &&& self.mesh_mappings_transparent@ == draw_ranges(meshes, entities, Bucket::Transparent)
    }
}

/// Whether the scene is within what the draw ranges can count: vertex
/// offsets are `i32`, instance positions `u32`.
pub open spec fn within_limits(meshes: Seq<Mesh>, entities: Seq<Entity>) -> bool {
    vertex_start(meshes, meshes.len() as int) <= i32::MAX && entities.len() <= u32::MAX
}

/// Whether the scene is within what the draw ranges can count.
pub fn scene_within_limits(meshes: &Vec<Mesh>, entities: &Vec<Entity>) -> (fits: bool)
    ensures
        fits == within_limits(meshes@, entities@),
{
    if entities.len() as u64 > u32::MAX as u64 {
        return false;
    }
    let mut vertices: u64 = 0;
    let mut i: usize = 0;
    while i < meshes.len()
        invariant
            i <= meshes@.len(),
            vertices == vertex_start(meshes@, i as int),
            vertices <= i32::MAX,
        decreases meshes@.len() - i,
    {
        let more = meshes[i].vertices.len() as u64;
        proof {
            lemma_vertex_start_grows(meshes@, i + 1, meshes@.len() as int);
        }
        if more > i32::MAX as u64 - vertices {
            return false;
        }
        vertices += more;
        i += 1;
    }
    true
}

/// Rebuilds the instance arrays and the draw ranges from the registry, and
/// records on each entity with a mesh of the table the bucket and the slot it
/// got. The meshes stay as they are.
pub fn setup_entities(
    meshes: &Vec<Mesh>,
    entities: &mut Vec<Entity>,
    gaussians: &Vec<Gaussian>,
) -> (partition: Partition)
    requires
        within_limits(meshes@, old(entities)@),
    ensures
        partition.is_partition_of(meshes@, old(entities)@, gaussians@),
        final(entities)@ == rebuilt(old(entities)@, meshes@.len() as int),
{
    let ghost before = entities@;
    let ghost total = before.len() as int;
    let mut instances: Vec<Instance> = Vec::new();
    let mut instances_transparent: Vec<Instance> = Vec::new();
    let mut mesh_mappings: Vec<(i32, u32, u32)> = Vec::new();
    let mut mesh_mappings_transparent: Vec<(i32, u32, u32)> = Vec::new();

    let mut vertex_start_this_mesh: i32 = 0;
    let mut instance_start_this_mesh: u32 = 0;
    let mut instance_start_this_mesh_transparent: u32 = 0;
    let mut i_opaque: usize = 0;
    let mut i_transparent: usize = 0;

    // Build mesh-based instances.
    let mut i: usize = 0;
    while i < meshes.len()
        invariant
            i <= meshes@.len(),
            within_limits(meshes@, before),
            entities@.len() == total == before.len(),
            forall|at: int|
                0 <= at < total ==> #[trigger] entities@[at] == rebuilt_entity(
                    before,
                    i as int,
                    at,
                ),
            instances@ == bucket_instances(before, Bucket::Opaque, i as int),
            instances_transparent@ == bucket_instances(before, Bucket::Transparent, i as int),
            i_opaque == instances@.len() == instance_start_this_mesh,
            i_transparent == instances_transparent@.len() == instance_start_this_mesh_transparent,
            vertex_start_this_mesh == vertex_start(meshes@, i as int),
            mesh_mappings@ == draw_ranges(meshes@, before, Bucket::Opaque).take(i as int),
            mesh_mappings_transparent@ == draw_ranges(meshes@, before, Bucket::Transparent).take(
                i as int,
            ),
        decreases meshes@.len() - i,
    {
        let mut instance_count_this_mesh: u32 = 0;
        let mut instance_count_this_mesh_transparent: u32 = 0;
        let ghost opaque = bucket_order(before, Bucket::Opaque, i as int);
        let ghost transparent = bucket_order(before, Bucket::Transparent, i as int);

        proof {
            lemma_bucket_order_len(before, Bucket::Opaque, i + 1);
            lemma_bucket_order_len(before, Bucket::Transparent, i + 1);
            lemma_population_bound(before, i + 1, total);
        }

        let mut k: usize = 0;
        while k < entities.len()
            invariant
                i < meshes@.len(),
                k <= total <= u32::MAX,
                entities@.len() == total == before.len(),
                opaque == bucket_order(before, Bucket::Opaque, i as int),
                transparent == bucket_order(before, Bucket::Transparent, i as int),
                bucket_order(before, Bucket::Opaque, i + 1).len() + bucket_order(
                    before,
                    Bucket::Transparent,
                    i + 1,
                ).len() <= total,
                forall|at: int|
                    0 <= at < total ==> #[trigger] entities@[at] == rebuilt_entity(
                        before,
                        if before[at].mesh == i && at < k {
                            i + 1
                        } else {
                            i as int
                        },
                        at,
                    ),
                instances@ == instances_at(
                    before,
                    opaque + members(before, i as int, Bucket::Opaque, k as int),
                ),
                instances_transparent@ == instances_at(
                    before,
                    transparent + members(before, i as int, Bucket::Transparent, k as int),
                ),
                instance_count_this_mesh == members(
                    before,
                    i as int,
                    Bucket::Opaque,
                    k as int,
                ).len(),
                instance_count_this_mesh_transparent == members(
                    before,
                    i as int,
                    Bucket::Transparent,
                    k as int,
                ).len(),
                i_opaque == opaque.len() + instance_count_this_mesh,
                i_transparent == transparent.len() + instance_count_this_mesh_transparent,
            decreases total - k,
        {
            proof {
                lemma_members_prefix(before, i as int, Bucket::Opaque, k + 1, total);
                lemma_members_prefix(before, i as int, Bucket::Transparent, k + 1, total);
            }
            if entities[k].mesh == i {
                let instance = entities[k].to_instance();
                match Bucket::classify(entities[k].opacity) {
                    Bucket::Opaque => {
                        instances.push(instance);
                        instance_count_this_mesh += 1;

                        // For the in-place replacement.
                        entities[k].slot = Some(i_opaque);
                        entities[k].bucket = Bucket::Opaque;
                        i_opaque += 1;
                        assert(instances@ =~= instances_at(
                            before,
                            opaque + members(before, i as int, Bucket::Opaque, k + 1),
                        ));
                    },
                    _ => {
                        instances_transparent.push(instance);
                        instance_count_this_mesh_transparent += 1;

                        entities[k].slot = Some(i_transparent);
                        entities[k].bucket = Bucket::Transparent;
                        i_transparent += 1;
                        assert(instances_transparent@ =~= instances_at(
                            before,
                            transparent + members(before, i as int, Bucket::Transparent, k + 1),
                        ));
                    },
                }
            }
            k += 1;
        }

        // A mesh without instances gets its ranges too, so that the tables
        // stay in step with the mesh table.
        mesh_mappings.push(
            (vertex_start_this_mesh, instance_start_this_mesh, instance_count_this_mesh),
        );
        mesh_mappings_transparent.push(
            (
                vertex_start_this_mesh,
                instance_start_this_mesh_transparent,
                instance_count_this_mesh_transparent,
            ),
        );

        proof {
            lemma_vertex_start_grows(meshes@, i + 1, meshes@.len() as int);
            lemma_vertex_start_grows(meshes@, i as int, i + 1);
            assert(vertex_start(meshes@, i + 1) == vertex_start(meshes@, i as int)
                + meshes@[i as int].vertices@.len());
            assert(mesh_mappings@ =~= draw_ranges(meshes@, before, Bucket::Opaque).take(i + 1));
            assert(mesh_mappings_transparent@ =~= draw_ranges(
                meshes@,
                before,
                Bucket::Transparent,
            ).take(i + 1));
        }
        vertex_start_this_mesh += meshes[i].vertices.len() as i32;
        instance_start_this_mesh += instance_count_this_mesh;
        instance_start_this_mesh_transparent += instance_count_this_mesh_transparent;
        i += 1;
    }

    // Build the instances of the splats.
    let mut instances_gauss: Vec<GaussianInstance> = Vec::new();
    let mut g: usize = 0;
    while g < gaussians.len()
        invariant
            g <= gaussians@.len(),
            instances_gauss@ == gauss_instances(gaussians@).take(g as int),
        decreases gaussians@.len() - g,
    {
        instances_gauss.push(gaussians[g].to_instance());
        g += 1;
        assert(instances_gauss@ =~= gauss_instances(gaussians@).take(g as int));
    }

    proof {
        assert(entities@ =~= rebuilt(before, meshes@.len() as int));
        assert(mesh_mappings@ =~= draw_ranges(meshes@, before, Bucket::Opaque));
        assert(mesh_mappings_transparent@ =~= draw_ranges(meshes@, before, Bucket::Transparent));
        assert(instances_gauss@ =~= gauss_instances(gaussians@));
    }
    Partition {
        instances,
        instances_transparent,
        instances_gauss,
        mesh_mappings,
        mesh_mappings_transparent,
    }
}

/// One record to write over a slot of an instance array.
#[derive(Clone, Copy, Debug, PartialEq, Eq)]
pub struct InstanceWrite {
    /// The array to write to.
    pub bucket: Bucket,
    /// Where the record starts in the array's bytes.
    pub offset: u64,
    /// The record that replaces the one there.
    pub instance: Instance,
}

/// How a request to update entities in place ended.
#[derive(Debug, PartialEq, Eq)]
pub enum PatchOutcome {
    /// The arrays keep their size and order; these records are to be written
    /// over the ones in them, one write for each.
    InPlace(Vec<InstanceWrite>),
    /// The request could not be met in place: the arrays and the draw ranges
    /// were built anew from the whole registry.
    Rebuilt(Partition),
}

/// The set of the numbers in `values`.
fn number_set(values: &Vec<u32>) -> (set: HashSet<u32>)
    ensures
        set@ == values@.to_set(),
{
    broadcast use group_hash_axioms;

    let mut set: HashSet<u32> = HashSet::new();
    let mut i: usize = 0;
    while i < values.len()
        invariant
            i <= values@.len(),
            forall|x: u32|
                set@.contains(x) <==> exists|j: int| 0 <= j < i && #[trigger] values@[j] == x,
        decreases values@.len() - i,
    {
        set.insert(values[i]);
        i += 1;
    }
    assert(set@ =~= values@.to_set());
    set
}

/// Brings the records of the entities that `update_type` names up to date.
///
/// Where every such entity still has the slot and the bucket that the last
/// rebuild gave it, the result lists one write for each, and nothing else
/// changes. Where one of them is stale, or `update_type` asks for a rebuild,
/// the arrays are rebuilt from the whole registry instead.
pub fn replace_instance_entries(
    meshes: &Vec<Mesh>,
    entities: &mut Vec<Entity>,
    gaussians: &Vec<Gaussian>,
    update_type: &EntityUpdate,
) -> (outcome: PatchOutcome)
    requires
        within_limits(meshes@, old(entities)@),
        update_type matches EntityUpdate::Indexes(range) ==> range.0 <= range.1 <= old(
            entities,
        )@.len(),
    ensures
        match outcome {
            PatchOutcome::Rebuilt(partition) => {
                &&& needs_rebuild(*update_type, old(entities)@)
                &&& partition.is_partition_of(meshes@, old(entities)@, gaussians@)
                &&& final(entities)@ == rebuilt(old(entities)@, meshes@.len() as int)
            },
            PatchOutcome::InPlace(writes) => {
                &&& !needs_rebuild(*update_type, old(entities)@)
                &&& writes@ == patch_writes(
                    *update_type,
                    old(entities)@,
                    old(entities)@.len() as int,
                )
                &&& final(entities)@ == old(entities)@
            },
        },
{
    broadcast use group_hash_axioms;

    let classes_or_ids: HashSet<u32> = match update_type {
        EntityUpdate::Classes(v) => number_set(v),
        EntityUpdate::Ids(v) => number_set(v),
        _ => HashSet::new(),
    };
    let (start, end) = match update_type {
        EntityUpdate::All => {
            return PatchOutcome::Rebuilt(setup_entities(meshes, entities, gaussians));
        },
        EntityUpdate::Nothing => (0, 0),
        EntityUpdate::Indexes(range) => (range.0, range.1),
        _ => (0, entities.len()),
    };
    let ghost total = entities@.len() as int;
    proof {
        lemma_patch_writes_skip(*update_type, entities@, 0, start as int);
    }

    let mut writes: Vec<InstanceWrite> = Vec::new();
    let mut needs_full_rebuild = false;
    let mut k: usize = start;
    while k < end
        invariant_except_break
            !needs_full_rebuild,
            writes@ == patch_writes(*update_type, entities@, k as int),
            forall|at: int|
                0 <= at < k && targeted(*update_type, entities@, at) ==> !stale(
                    #[trigger] entities@[at],
                ),
        invariant
            start <= k <= end <= total == entities@.len(),
            entities@ == old(entities)@,
            forall|at: int| end <= at < total ==> !targeted(*update_type, entities@, at),
            update_type matches EntityUpdate::Classes(v) ==> classes_or_ids@ == v@.to_set(),
            update_type matches EntityUpdate::Ids(v) ==> classes_or_ids@ == v@.to_set(),
            update_type matches EntityUpdate::Indexes(range) ==> start == range.0 && end
                == range.1,
            !(update_type is All),
            update_type is Nothing ==> end == 0,
        ensures
            needs_full_rebuild ==> needs_rebuild(*update_type, entities@),
            !needs_full_rebuild ==> k == end && writes@ == patch_writes(
                *update_type,
                entities@,
                k as int,
            ) && !needs_rebuild(*update_type, entities@),
        decreases end - k,
    {
        let named = match update_type {
            EntityUpdate::Classes(_) => classes_or_ids.contains(&entities[k].class),
            EntityUpdate::Ids(_) => classes_or_ids.contains(&entities[k].id),
            _ => true,
        };
        assert(named == targeted(*update_type, entities@, k as int));
        if named {
            let slot = match entities[k].slot {
                Some(slot) => slot,
                None => {
                    needs_full_rebuild = true;
                    break ;
                },
            };
            // A bucket other than the one recorded means that the slot
            // belongs to the other array.
            let now = Bucket::classify(entities[k].opacity);
            if now != entities[k].bucket {
                needs_full_rebuild = true;
                break ;
            }
            let byte_offset = match (slot as u64).checked_mul(INSTANCE_SIZE as u64) {
                Some(offset) => offset,
                None => {
                    needs_full_rebuild = true;
                    break ;
                },
            };
            writes.push(
                InstanceWrite {
                    bucket: entities[k].bucket,
                    offset: byte_offset,
                    instance: entities[k].to_instance(),
                },
            );
        }
        k += 1;
    }
    proof {
        lemma_patch_writes_skip(*update_type, entities@, end as int, total);
    }

    if needs_full_rebuild {
        PatchOutcome::Rebuilt(setup_entities(meshes, entities, gaussians))
    } else {
        PatchOutcome::InPlace(writes)
    }
}

/// The records of the first `upto` instances, one behind the other.
pub open spec fn instance_data(
    instances: Seq<Instance>,
    matrices: Seq<InstanceMatrices>,
    order: ByteOrder,
    upto: int,
) -> Seq<u8>
    decreases upto,
{
    if upto <= 0 {
        Seq::empty()
    } else {
        instance_data(instances, matrices, order, upto - 1) + instances[upto - 1].bytes(
            matrices[upto - 1],
            order,
        )
    }
}

/// The records of the first `upto` splats, one behind the other.
pub open spec fn gauss_data(instances: Seq<GaussianInstance>, order: ByteOrder, upto: int) -> Seq<
    u8,
>
    decreases upto,
{
    if upto <= 0 {
        Seq::empty()
    } else {
        gauss_data(instances, order, upto - 1) + instances[upto - 1].bytes(order)
    }
}

/// The contents of an instance buffer: the record of each instance, laid out
/// around the matrices at the same position of `matrices`.
pub fn setup_instance_buf(
    instances: &[Instance],
    matrices: &[InstanceMatrices],
    order: ByteOrder,
) -> (contents: Vec<u8>)
    requires
        instances@.len() == matrices@.len(),
    ensures
        contents@ == instance_data(instances@, matrices@, order, instances@.len() as int),
{
    let mut data: Vec<u8> = Vec::new();
    let mut i: usize = 0;
    while i < instances.len()
        invariant
            i <= instances@.len(),
            instances@.len() == matrices@.len(),
            data@ == instance_data(instances@, matrices@, order, i as int),
        decreases instances@.len() - i,
    {
        let record = instances[i].to_bytes(&matrices[i], order);
        extend_from_bytes(&mut data, record.as_slice());
        i += 1;
    }
    data
}

/// The contents of the splat buffer: the record of each instance.
pub fn setup_instance_buf_gauss(instances: &[GaussianInstance], order: ByteOrder) -> (contents:
    Vec<u8>)
    ensures
        contents@ == gauss_data(instances@, order, instances@.len() as int),
{
    let mut data: Vec<u8> = Vec::new();
    let mut i: usize = 0;
    while i < instances.len()
        invariant
            i <= instances@.len(),
            data@ == gauss_data(instances@, order, i as int),
        decreases instances@.len() - i,
    {
        let record = instances[i].to_bytes(order);
        extend_from_bytes(&mut data, record.as_slice());
        i += 1;
    }
    data
}

/// The contents of the shared vertex buffer and of the shared index buffer.
#[derive(Debug, PartialEq, Eq)]
pub struct Geometry {
    /// The vertices of every mesh, in table order.
    pub vertex_data: Vec<u8>,
    /// The indices of every mesh, in table order, each as it stands in its
    /// mesh: a draw call adds the vertex offset of the mesh.
    pub index_data: Vec<u8>,
}

/// The records of the first `upto` vertices, one behind the other.
pub open spec fn vertices_bytes(vertices: Seq<Vertex>, order: ByteOrder, upto: int) -> Seq<u8>
    decreases upto,
{
    if upto <= 0 {
        Seq::empty()
    } else {
        vertices_bytes(vertices, order, upto - 1) + vertices[upto - 1].bytes(order)
    }
}

/// The vertex records of the first `upto` meshes.
pub open spec fn vertex_data(meshes: Seq<Mesh>, order: ByteOrder, upto: int) -> Seq<u8>
    decreases upto,
{
    if upto <= 0 {
        Seq::empty()
    } else {
        vertex_data(meshes, order, upto - 1) + vertices_bytes(
            meshes[upto - 1].vertices@,
            order,
            meshes[upto - 1].vertices@.len() as int,
        )
    }
}

/// The index as the 32-bit number that the index buffer holds.
pub open spec fn index_word(index: usize) -> u32 {
    (index as int % 0x1_0000_0000) as u32
}

/// The first `upto` indices, four bytes each.
pub open spec fn indices_bytes(indices: Seq<usize>, order: ByteOrder, upto: int) -> Seq<u8>
    decreases upto,
{
    if upto <= 0 {
        Seq::empty()
    } else {
        indices_bytes(indices, order, upto - 1) + word_bytes(index_word(indices[upto - 1]), order)
    }
}

/// The indices of the first `upto` meshes.
pub open spec fn index_data(meshes: Seq<Mesh>, order: ByteOrder, upto: int) -> Seq<u8>
    decreases upto,
{
    if upto <= 0 {
        Seq::empty()
    } else {
        index_data(meshes, order, upto - 1) + indices_bytes(
            meshes[upto - 1].indices@,
            order,
            meshes[upto - 1].indices@.len() as int,
        )
    }
}

/// Flattens the meshes into the contents of one vertex buffer and one index
/// buffer.
pub fn setup_vertices_indices(meshes: &Vec<Mesh>, order: ByteOrder) -> (geometry: Geometry)
    ensures
        geometry.vertex_data@ == vertex_data(meshes@, order, meshes@.len() as int),
        geometry.index_data@ == index_data(meshes@, order, meshes@.len() as int),
{
    let mut vertex_bytes: Vec<u8> = Vec::new();
    let mut index_bytes: Vec<u8> = Vec::new();

    let mut i: usize = 0;
    while i < meshes.len()
        invariant
            i <= meshes@.len(),
            vertex_bytes@ == vertex_data(meshes@, order, i as int),
            index_bytes@ == index_data(meshes@, order, i as int),
        decreases meshes@.len() - i,
    {
        let mesh = &meshes[i];
        let ghost vertices_before = vertex_bytes@;
        let mut v: usize = 0;
        while v < mesh.vertices.len()
            invariant
                v <= mesh.vertices@.len(),
                vertex_bytes@ == vertices_before + vertices_bytes(mesh.vertices@, order, v as int),
            decreases mesh.vertices@.len() - v,
        {
            let record = mesh.vertices[v].to_bytes(order);
            extend_from_bytes(&mut vertex_bytes, record.as_slice());
            v += 1;
            assert(vertex_bytes@ =~= vertices_before + vertices_bytes(
                mesh.vertices@,
                order,
                v as int,
            ));
        }

        let ghost indices_before = index_bytes@;
        let mut x: usize = 0;
        while x < mesh.indices.len()
            invariant
                x <= mesh.indices@.len(),
                index_bytes@ == indices_before + indices_bytes(mesh.indices@, order, x as int),
            decreases mesh.indices@.len() - x,
        {
            let word = (mesh.indices[x] as u64 % 0x1_0000_0000) as u32;
            let bytes = word_to_bytes(word, order);
            extend_from_bytes(&mut index_bytes, bytes.as_slice());
            x += 1;
            assert(index_bytes@ =~= indices_before + indices_bytes(mesh.indices@, order, x as int));
        }
        i += 1;
    }
    Geometry { vertex_data: vertex_bytes, index_data: index_bytes }
}

} // verus!
