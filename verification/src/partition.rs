//! The order of the instance arrays, the slot of each entity in them and the
//! draw range of each mesh, as functions of the meshes and the registry.

use vstd::prelude::*;
use crate::gauss::{Gaussian, GaussianInstance};
use crate::types::{Bucket, Entity, Instance, Mesh};

verus! {

/// Whether `entity` is drawn with mesh `mesh` from the array of `bucket`.
pub open spec fn placed_in(entity: Entity, mesh: int, bucket: Bucket) -> bool {
    entity.mesh == mesh && Bucket::of(entity.opacity) == bucket
}

/// The registry positions below `upto` of the entities of one mesh in one
/// bucket, in registry order.
pub open spec fn members(entities: Seq<Entity>, mesh: int, bucket: Bucket, upto: int) -> Seq<int>
    decreases upto,
{
    if upto <= 0 {
        Seq::empty()
    } else if placed_in(entities[upto - 1], mesh, bucket) {
        members(entities, mesh, bucket, upto - 1).push(upto - 1)
    } else {
        members(entities, mesh, bucket, upto - 1)
    }
}

/// The registry positions of the entities in the array of `bucket`, over the
/// first `meshes` meshes: by mesh, then by registry order.
pub open spec fn bucket_order(entities: Seq<Entity>, bucket: Bucket, meshes: int) -> Seq<int>
    decreases meshes,
{
    if meshes <= 0 {
        Seq::empty()
    } else {
        bucket_order(entities, bucket, meshes - 1) + members(
            entities,
            meshes - 1,
            bucket,
            entities.len() as int,
        )
    }
}

/// The instances of the entities at the given registry positions.
pub open spec fn instances_at(entities: Seq<Entity>, positions: Seq<int>) -> Seq<Instance> {
    Seq::new(positions.len(), |i: int| entities[positions[i]].instance())
}

/// The instance array of `bucket` when the table holds `meshes` meshes.
pub open spec fn bucket_instances(entities: Seq<Entity>, bucket: Bucket, meshes: int) -> Seq<
    Instance,
> {
    instances_at(entities, bucket_order(entities, bucket, meshes))
}

/// The place of the entity at registry position `at` in the array of its
/// bucket: behind the entities of earlier meshes, and behind the earlier
/// entities of its own mesh.
pub open spec fn slot_of(entities: Seq<Entity>, at: int) -> nat {
    let mesh = entities[at].mesh as int;
    let bucket = Bucket::of(entities[at].opacity);
    bucket_order(entities, bucket, mesh).len() + members(entities, mesh, bucket, at).len()
}

/// The entity at `at` as a rebuild over `meshes` meshes leaves it: placed,
/// if its mesh is in the table, and untouched if not.
pub open spec fn rebuilt_entity(entities: Seq<Entity>, meshes: int, at: int) -> Entity {
    let entity = entities[at];
    if entity.mesh < meshes {
        Entity {
            slot: Some(slot_of(entities, at) as usize),
            bucket: Bucket::of(entity.opacity),
            ..entity
        }
    } else {
        entity
    }
}

/// The registry as a rebuild over `meshes` meshes leaves it.
pub open spec fn rebuilt(entities: Seq<Entity>, meshes: int) -> Seq<Entity> {
    Seq::new(entities.len(), |at: int| rebuilt_entity(entities, meshes, at))
}

/// The number of vertices of the first `meshes` meshes.
pub open spec fn vertex_start(meshes: Seq<Mesh>, upto: int) -> int
    decreases upto,
{
    if upto <= 0 {
        0
    } else {
        vertex_start(meshes, upto - 1) + meshes[upto - 1].vertices@.len()
    }
}

/// The draw range of mesh `mesh` in `bucket`: where its vertices start in the
/// shared vertex buffer, where its instances start in the bucket's array, and
/// how many there are.
pub open spec fn draw_range(
    meshes: Seq<Mesh>,
    entities: Seq<Entity>,
    bucket: Bucket,
    mesh: int,
) -> (i32, u32, u32) {
    (
        vertex_start(meshes, mesh) as i32,
        bucket_order(entities, bucket, mesh).len() as u32,
        members(entities, mesh, bucket, entities.len() as int).len() as u32,
    )
}

/// One draw range for each mesh of the table, also where no entity uses it.
pub open spec fn draw_ranges(meshes: Seq<Mesh>, entities: Seq<Entity>, bucket: Bucket) -> Seq<
    (i32, u32, u32),
> {
    Seq::new(meshes.len(), |mesh: int| draw_range(meshes, entities, bucket, mesh))
}

/// The splat instances, one for each splat in the order given.
pub open spec fn gauss_instances(gaussians: Seq<Gaussian>) -> Seq<GaussianInstance> {
    Seq::new(gaussians.len(), |i: int| gaussians[i].instance())
}

/// The number of entities below `upto` that are in `bucket` with one of the
/// first `meshes` meshes.
pub open spec fn population(entities: Seq<Entity>, bucket: Bucket, meshes: int, upto: int) -> nat
    decreases upto,
{
    if upto <= 0 {
        0
    } else {
        let entity = entities[upto - 1];
        let here: nat = if entity.mesh < meshes && Bucket::of(entity.opacity) == bucket {
            1
        } else {
            0
        };
        population(entities, bucket, meshes, upto - 1) + here
    }
}

/// Members are registry positions below the bound, and there are no more of
/// them than positions.
pub proof fn lemma_members_bounds(entities: Seq<Entity>, mesh: int, bucket: Bucket, upto: int)
    ensures
        members(entities, mesh, bucket, upto).len() <= if upto < 0 {
            0
        } else {
            upto
        },
        forall|i: int|
            0 <= i < members(entities, mesh, bucket, upto).len() ==> {
                let at = #[trigger] members(entities, mesh, bucket, upto)[i];
                0 <= at < upto && placed_in(entities[at], mesh, bucket)
            },
    decreases upto,
{
    if upto > 0 {
        lemma_members_bounds(entities, mesh, bucket, upto - 1);
    }
}

/// Raising the bound only appends members.
pub proof fn lemma_members_prefix(
    entities: Seq<Entity>,
    mesh: int,
    bucket: Bucket,
    lower: int,
    upper: int,
)
    requires
        lower <= upper,
    ensures
        members(entities, mesh, bucket, lower).len() <= members(
            entities,
            mesh,
            bucket,
            upper,
        ).len(),
        members(entities, mesh, bucket, upper).take(
            members(entities, mesh, bucket, lower).len() as int,
        ) == members(entities, mesh, bucket, lower),
    decreases upper - lower,
{
    if lower < upper {
        lemma_members_prefix(entities, mesh, bucket, lower, upper - 1);
        let shorter = members(entities, mesh, bucket, upper - 1);
        let longer = members(entities, mesh, bucket, upper);
        let low = members(entities, mesh, bucket, lower);
        if upper <= 0 {
            assert(longer =~= shorter);
        }
        assert(longer.take(low.len() as int) =~= shorter.take(low.len() as int));
    } else {
        let low = members(entities, mesh, bucket, lower);
        assert(low.take(low.len() as int) =~= low);
    }
}

/// The members of one more mesh are the population's growth.
pub proof fn lemma_population_step(entities: Seq<Entity>, bucket: Bucket, meshes: int, upto: int)
    requires
        0 <= meshes,
    ensures
        population(entities, bucket, meshes + 1, upto) == population(
            entities,
            bucket,
            meshes,
            upto,
        ) + members(entities, meshes, bucket, upto).len(),
    decreases upto,
{
    if upto > 0 {
        lemma_population_step(entities, bucket, meshes, upto - 1);
    }
}

/// The array of a bucket holds as many instances as the bucket has entities
/// with a mesh of the table.
pub proof fn lemma_bucket_order_len(entities: Seq<Entity>, bucket: Bucket, meshes: int)
    ensures
        bucket_order(entities, bucket, meshes).len() == population(
            entities,
            bucket,
            meshes,
            entities.len() as int,
        ),
    decreases meshes,
{
    if meshes > 0 {
        lemma_bucket_order_len(entities, bucket, meshes - 1);
        lemma_population_step(entities, bucket, meshes - 1, entities.len() as int);
    } else {
        lemma_population_empty(entities, bucket, meshes, entities.len() as int);
    }
}

/// No entity has a mesh before the first.
pub proof fn lemma_population_empty(entities: Seq<Entity>, bucket: Bucket, meshes: int, upto: int)
    requires
        meshes <= 0,
    ensures
        population(entities, bucket, meshes, upto) == 0,
    decreases upto,
{
    if upto > 0 {
        lemma_population_empty(entities, bucket, meshes, upto - 1);
    }
}

/// The two buckets together hold no more entities than there are.
pub proof fn lemma_population_bound(entities: Seq<Entity>, meshes: int, upto: int)
    ensures
        population(entities, Bucket::Opaque, meshes, upto) + population(
            entities,
            Bucket::Transparent,
            meshes,
            upto,
        ) <= if upto < 0 {
            0
        } else {
            upto
        },
    decreases upto,
{
    if upto > 0 {
        lemma_population_bound(entities, meshes, upto - 1);
    }
}

/// A bucket holds no more entities than there are.
pub proof fn lemma_population_at_most(
    entities: Seq<Entity>,
    bucket: Bucket,
    meshes: int,
    upto: int,
)
    ensures
        population(entities, bucket, meshes, upto) <= if upto < 0 {
            0
        } else {
            upto
        },
    decreases upto,
{
    if upto > 0 {
        lemma_population_at_most(entities, bucket, meshes, upto - 1);
    }
}

/// The vertex offsets grow along the table.
pub proof fn lemma_vertex_start_grows(meshes: Seq<Mesh>, lower: int, upper: int)
    requires
        lower <= upper,
    ensures
        vertex_start(meshes, lower) <= vertex_start(meshes, upper),
        0 <= vertex_start(meshes, lower),
    decreases upper - lower,
{
    if lower < upper {
        lemma_vertex_start_grows(meshes, lower, upper - 1);
    } else {
        lemma_vertex_start_nonnegative(meshes, lower);
    }
}

/// No vertex offset is negative.
pub proof fn lemma_vertex_start_nonnegative(meshes: Seq<Mesh>, upto: int)
    ensures
        0 <= vertex_start(meshes, upto),
    decreases upto,
{
    if upto > 0 {
        lemma_vertex_start_nonnegative(meshes, upto - 1);
    }
}

/// Whether every entity refers to a mesh of a table of `meshes` meshes.
pub open spec fn meshes_in_table(entities: Seq<Entity>, meshes: int) -> bool {
    forall|at: int| 0 <= at < entities.len() ==> (#[trigger] entities[at]).mesh < meshes
}

/// Whether two registries agree, position by position, on the mesh and on
/// the bucket that the opacity asks for. Such registries are partitioned
/// alike.
pub open spec fn same_structure(first: Seq<Entity>, second: Seq<Entity>) -> bool {
    &&& first.len() == second.len()
    &&& forall|at: int|
        0 <= at < first.len() ==> (#[trigger] first[at]).mesh == second[at].mesh && Bucket::of(
            first[at].opacity,
        ) == Bucket::of(second[at].opacity)
}

/// The members of one mesh stand in registry order, so none occurs twice.
pub proof fn lemma_members_ascending(entities: Seq<Entity>, mesh: int, bucket: Bucket, upto: int)
    ensures
        forall|i: int, j: int|
            0 <= i < j < members(entities, mesh, bucket, upto).len() ==> #[trigger] members(
                entities,
                mesh,
                bucket,
                upto,
            )[i] < #[trigger] members(entities, mesh, bucket, upto)[j],
    decreases upto,
{
    if upto > 0 {
        lemma_members_ascending(entities, mesh, bucket, upto - 1);
        lemma_members_bounds(entities, mesh, bucket, upto - 1);
    }
}

/// An entity stands among the members of its mesh and bucket behind the
/// members before it.
pub proof fn lemma_member_position(entities: Seq<Entity>, at: int)
    requires
        0 <= at < entities.len(),
    ensures
        ({
            let mesh = entities[at].mesh as int;
            let bucket = Bucket::of(entities[at].opacity);
            let all = members(entities, mesh, bucket, entities.len() as int);
            let before = members(entities, mesh, bucket, at).len() as int;
            before < all.len() && all[before] == at
        }),
{
    let mesh = entities[at].mesh as int;
    let bucket = Bucket::of(entities[at].opacity);
    let with = members(entities, mesh, bucket, at + 1);
    assert(with == members(entities, mesh, bucket, at).push(at));
    lemma_members_prefix(entities, mesh, bucket, at + 1, entities.len() as int);
    let all = members(entities, mesh, bucket, entities.len() as int);
    assert(all.take(with.len() as int)[with.len() - 1] == at);
}

/// The array of a bucket over a larger table starts with its array over a
/// smaller one: a further mesh only appends.
pub proof fn lemma_bucket_order_prefix(
    entities: Seq<Entity>,
    bucket: Bucket,
    fewer: int,
    more: int,
)
    requires
        fewer <= more,
    ensures
        bucket_order(entities, bucket, fewer).len() <= bucket_order(entities, bucket, more).len(),
        bucket_order(entities, bucket, more).take(
            bucket_order(entities, bucket, fewer).len() as int,
        ) == bucket_order(entities, bucket, fewer),
    decreases more - fewer,
{
    let short = bucket_order(entities, bucket, fewer);
    if fewer < more {
        lemma_bucket_order_prefix(entities, bucket, fewer, more - 1);
        let middle = bucket_order(entities, bucket, more - 1);
        let long = bucket_order(entities, bucket, more);
        if more <= 0 {
            assert(long =~= middle);
        }
        assert(long.take(short.len() as int) =~= middle.take(short.len() as int));
    } else {
        assert(short.take(short.len() as int) =~= short);
    }
}

/// What the array of a bucket holds: registry positions of entities of that
/// bucket with a mesh of the table, ordered by mesh and then by position.
pub proof fn lemma_bucket_order_sorted(entities: Seq<Entity>, bucket: Bucket, meshes: int)
    ensures
        forall|i: int|
            0 <= i < bucket_order(entities, bucket, meshes).len() ==> {
                let at = #[trigger] bucket_order(entities, bucket, meshes)[i];
                &&& 0 <= at < entities.len()
                &&& entities[at].mesh < meshes
                &&& Bucket::of(entities[at].opacity) == bucket
            },
        forall|i: int, j: int|
            0 <= i < j < bucket_order(entities, bucket, meshes).len() ==> {
                let first = #[trigger] bucket_order(entities, bucket, meshes)[i];
                let second = #[trigger] bucket_order(entities, bucket, meshes)[j];
                entities[first].mesh < entities[second].mesh || (entities[first].mesh
                    == entities[second].mesh && first < second)
            },
    decreases meshes,
{
    if meshes > 0 {
        lemma_bucket_order_sorted(entities, bucket, meshes - 1);
        lemma_members_bounds(entities, meshes - 1, bucket, entities.len() as int);
        lemma_members_ascending(entities, meshes - 1, bucket, entities.len() as int);
        let earlier = bucket_order(entities, bucket, meshes - 1);
        let last = members(entities, meshes - 1, bucket, entities.len() as int);
        let order = bucket_order(entities, bucket, meshes);
        assert forall|i: int| 0 <= i < order.len() implies {
            let at = #[trigger] order[i];
            &&& 0 <= at < entities.len()
            &&& entities[at].mesh < meshes
            &&& Bucket::of(entities[at].opacity) == bucket
        } by {
            if i < earlier.len() {
                assert(order[i] == earlier[i]);
            } else {
                assert(order[i] == last[i - earlier.len()]);
            }
        }
        assert forall|i: int, j: int| 0 <= i < j < order.len() implies {
            let first = #[trigger] order[i];
            let second = #[trigger] order[j];
            entities[first].mesh < entities[second].mesh || (entities[first].mesh
                == entities[second].mesh && first < second)
        } by {
            if j < earlier.len() {
                assert(order[i] == earlier[i] && order[j] == earlier[j]);
            } else if i < earlier.len() {
                assert(order[i] == earlier[i]);
                assert(order[j] == last[j - earlier.len()]);
            } else {
                assert(order[i] == last[i - earlier.len()]);
                assert(order[j] == last[j - earlier.len()]);
            }
        }
    }
}

/// Slot and bucket address exactly one record: the slot of an entity with a
/// mesh of the table lies in the array of its bucket, the array holds the
/// entity's own instance there, and no other slot of the array belongs to
/// that entity.
pub proof fn lemma_slot_addresses_entity(entities: Seq<Entity>, meshes: int, at: int)
    requires
        0 <= at < entities.len(),
        entities[at].mesh < meshes,
    ensures
        ({
            let bucket = Bucket::of(entities[at].opacity);
            let order = bucket_order(entities, bucket, meshes);
            &&& slot_of(entities, at) < order.len()
            &&& order[slot_of(entities, at) as int] == at
            &&& bucket_instances(entities, bucket, meshes)[slot_of(entities, at) as int]
                == entities[at].instance()
            &&& forall|slot: int|
                0 <= slot < order.len() && #[trigger] order[slot] == at ==> slot == slot_of(
                    entities,
                    at,
                )
        }),
{
    let mesh = entities[at].mesh as int;
    let bucket = Bucket::of(entities[at].opacity);
    let order = bucket_order(entities, bucket, meshes);
    let through = bucket_order(entities, bucket, mesh + 1);
    let earlier = bucket_order(entities, bucket, mesh);
    let all = members(entities, mesh, bucket, entities.len() as int);
    let slot = slot_of(entities, at) as int;
    lemma_member_position(entities, at);
    assert(through == earlier + all);
    assert(through[slot] == all[slot - earlier.len()]);
    lemma_bucket_order_prefix(entities, bucket, mesh + 1, meshes);
    assert(order.take(through.len() as int)[slot] == through[slot]);
    lemma_bucket_order_sorted(entities, bucket, meshes);
}

/// Registries that agree on meshes and buckets have the same members.
pub proof fn lemma_members_by_structure(
    first: Seq<Entity>,
    second: Seq<Entity>,
    mesh: int,
    bucket: Bucket,
    upto: int,
)
    requires
        same_structure(first, second),
        upto <= first.len(),
    ensures
        members(first, mesh, bucket, upto) == members(second, mesh, bucket, upto),
    decreases upto,
{
    if upto > 0 {
        lemma_members_by_structure(first, second, mesh, bucket, upto - 1);
        assert(first[upto - 1].mesh == second[upto - 1].mesh);
    }
}

/// Registries that agree on meshes and buckets have the same order in
/// each array.
pub proof fn lemma_bucket_order_by_structure(
    first: Seq<Entity>,
    second: Seq<Entity>,
    bucket: Bucket,
    meshes: int,
)
    requires
        same_structure(first, second),
    ensures
        bucket_order(first, bucket, meshes) == bucket_order(second, bucket, meshes),
    decreases meshes,
{
    if meshes > 0 {
        lemma_bucket_order_by_structure(first, second, bucket, meshes - 1);
        lemma_members_by_structure(first, second, meshes - 1, bucket, first.len() as int);
    }
}

/// A rebuild changes what entities record of their place and nothing else.
pub proof fn lemma_rebuilt_same_structure(entities: Seq<Entity>, meshes: int)
    ensures
        same_structure(entities, rebuilt(entities, meshes)),
        same_structure(rebuilt(entities, meshes), entities),
{
}

/// The number of entities below `upto` whose opacity asks for `bucket`.
pub open spec fn classified(entities: Seq<Entity>, bucket: Bucket, upto: int) -> nat
    decreases upto,
{
    if upto <= 0 {
        0
    } else {
        let here: nat = if Bucket::of(entities[upto - 1].opacity) == bucket {
            1
        } else {
            0
        };
        classified(entities, bucket, upto - 1) + here
    }
}

/// The instance counts of the first `upto` draw ranges, added up.
pub open spec fn instance_count_sum(ranges: Seq<(i32, u32, u32)>, upto: int) -> int
    decreases upto,
{
    if upto <= 0 {
        0
    } else {
        instance_count_sum(ranges, upto - 1) + ranges[upto - 1].2
    }
}

/// Where every mesh reference is in the table, the entities placed in a
/// bucket are the entities classified into it.
pub proof fn lemma_population_is_classified(
    entities: Seq<Entity>,
    bucket: Bucket,
    meshes: int,
    upto: int,
)
    requires
        meshes_in_table(entities, meshes),
        upto <= entities.len(),
    ensures
        population(entities, bucket, meshes, upto) == classified(entities, bucket, upto),
    decreases upto,
{
    if upto > 0 {
        lemma_population_is_classified(entities, bucket, meshes, upto - 1);
        assert(entities[upto - 1].mesh < meshes);
    }
}

/// The instance counts of the first meshes add up to the length of the
/// bucket's array over those meshes.
pub proof fn lemma_instance_count_sum(
    meshes: Seq<Mesh>,
    entities: Seq<Entity>,
    bucket: Bucket,
    upto: int,
)
    requires
        entities.len() <= u32::MAX,
        0 <= upto <= meshes.len(),
    ensures
        instance_count_sum(draw_ranges(meshes, entities, bucket), upto) == bucket_order(
            entities,
            bucket,
            upto,
        ).len(),
    decreases upto,
{
    if upto > 0 {
        lemma_instance_count_sum(meshes, entities, bucket, upto - 1);
        lemma_members_bounds(entities, upto - 1, bucket, entities.len() as int);
    }
}

/// After a rebuild over a table that holds the mesh of every
/// entity, each entity records a slot and the bucket that its opacity asks
/// for, and in each bucket the instance counts of the draw ranges add up to
/// the number of entities classified into that bucket, which is the length of
/// the bucket's array.
pub proof fn lemma_rebuild_covers_registry(
    meshes: Seq<Mesh>,
    entities: Seq<Entity>,
    bucket: Bucket,
)
    requires
        meshes_in_table(entities, meshes.len() as int),
        entities.len() <= u32::MAX,
    ensures
        forall|at: int|
            0 <= at < entities.len() ==> {
                let after = #[trigger] rebuilt(entities, meshes.len() as int)[at];
                &&& after.slot == Some(slot_of(entities, at) as usize)
                &&& after.bucket == Bucket::of(entities[at].opacity)
                &&& after.bucket == Bucket::Opaque <==> crate::types::is_opaque(
                    entities[at].opacity,
                )
                &&& after.bucket != Bucket::Opaque ==> after.bucket == Bucket::Transparent
            },
        instance_count_sum(draw_ranges(meshes, entities, bucket), meshes.len() as int)
            == classified(entities, bucket, entities.len() as int),
        bucket_instances(entities, bucket, meshes.len() as int).len() == classified(
            entities,
            bucket,
            entities.len() as int,
        ),
{
    let count = meshes.len() as int;
    lemma_instance_count_sum(meshes, entities, bucket, count);
    lemma_bucket_order_len(entities, bucket, count);
    lemma_population_is_classified(entities, bucket, count, entities.len() as int);
    assert forall|at: int| 0 <= at < entities.len() implies {
        let after = #[trigger] rebuilt(entities, count)[at];
        &&& after.slot == Some(slot_of(entities, at) as usize)
        &&& after.bucket == Bucket::of(entities[at].opacity)
    } by {
        assert(entities[at].mesh < count);
    }
}

/// In each bucket the first draw range starts at 0, each
/// further one starts where the one before it ends, so the starts never
/// decrease along the table, and the last one ends at the length of the
/// bucket's array.
pub proof fn lemma_draw_ranges_contiguous(
    meshes: Seq<Mesh>,
    entities: Seq<Entity>,
    bucket: Bucket,
)
    requires
        entities.len() <= u32::MAX,
    ensures
        ({
            let ranges = draw_ranges(meshes, entities, bucket);
            let count = meshes.len() as int;
            &&& ranges.len() == count
            &&& count > 0 ==> ranges[0].1 == 0
            &&& forall|mesh: int|
                0 <= mesh < count - 1 ==> (#[trigger] ranges[mesh + 1]).1 == ranges[mesh].1
                    + ranges[mesh].2
            &&& forall|first: int, second: int|
                0 <= first <= second < count ==> (#[trigger] ranges[first]).1 <= (
                #[trigger] ranges[second]).1
            &&& count > 0 ==> ranges[count - 1].1 + ranges[count - 1].2 == bucket_instances(
                entities,
                bucket,
                count,
            ).len()
        }),
{
    let ranges = draw_ranges(meshes, entities, bucket);
    let count = meshes.len() as int;
    let total = entities.len() as int;
    lemma_bucket_order_len(entities, bucket, count);
    lemma_population_at_most(entities, bucket, count, total);
    assert forall|mesh: int| 0 <= mesh < count implies (#[trigger] ranges[mesh]).1 == bucket_order(
        entities,
        bucket,
        mesh,
    ).len() && ranges[mesh].2 == members(entities, mesh, bucket, total).len() by {
        lemma_bucket_order_prefix(entities, bucket, mesh, count);
        lemma_members_bounds(entities, mesh, bucket, total);
    }
    assert forall|mesh: int| 0 <= mesh < count - 1 implies (#[trigger] ranges[mesh + 1]).1
        == ranges[mesh].1 + ranges[mesh].2 by {
        assert(ranges[mesh].1 == bucket_order(entities, bucket, mesh).len());
    }
    assert forall|first: int, second: int| 0 <= first <= second < count implies (
    #[trigger] ranges[first]).1 <= (#[trigger] ranges[second]).1 by {
        lemma_bucket_order_prefix(entities, bucket, first, second);
    }
    if count > 0 {
        assert(ranges[count - 1].1 == bucket_order(entities, bucket, count - 1).len());
    }
}

/// A rebuild of a registry that a rebuild has just left gives
/// the same instance arrays and the same draw ranges again, and leaves the
/// registry as it is.
pub proof fn lemma_rebuild_idempotent(meshes: Seq<Mesh>, entities: Seq<Entity>, bucket: Bucket)
    ensures
        ({
            let count = meshes.len() as int;
            let once = rebuilt(entities, count);
            &&& bucket_instances(once, bucket, count) == bucket_instances(entities, bucket, count)
            &&& draw_ranges(meshes, once, bucket) == draw_ranges(meshes, entities, bucket)
            &&& rebuilt(once, count) == once
        }),
{
    let count = meshes.len() as int;
    let once = rebuilt(entities, count);
    lemma_rebuilt_same_structure(entities, count);
    lemma_bucket_order_by_structure(once, entities, bucket, count);
    lemma_bucket_order_sorted(entities, bucket, count);
    assert(bucket_instances(once, bucket, count) =~= bucket_instances(entities, bucket, count));
    assert forall|mesh: int| 0 <= mesh < count implies draw_range(meshes, once, bucket, mesh)
        == draw_range(meshes, entities, bucket, mesh) by {
        lemma_bucket_order_by_structure(once, entities, bucket, mesh);
        lemma_members_by_structure(once, entities, mesh, bucket, entities.len() as int);
    }
    assert(draw_ranges(meshes, once, bucket) =~= draw_ranges(meshes, entities, bucket));
    assert forall|at: int| 0 <= at < entities.len() implies rebuilt_entity(once, count, at)
        == once[at] by {
        let own = Bucket::of(entities[at].opacity);
        lemma_bucket_order_by_structure(once, entities, own, entities[at].mesh as int);
        lemma_members_by_structure(once, entities, entities[at].mesh as int, own, at);
    }
    assert(rebuilt(once, count) =~= once);
}

/// The slots of one mesh follow those of the meshes before it: a slot of a
/// bucket's array lies in the block of the mesh of the entity it holds.
pub proof fn lemma_slot_in_block(entities: Seq<Entity>, bucket: Bucket, meshes: int, slot: int)
    requires
        0 <= slot < bucket_order(entities, bucket, meshes).len(),
    ensures
        ({
            let at = bucket_order(entities, bucket, meshes)[slot];
            let mesh = entities[at].mesh as int;
            &&& 0 <= mesh < meshes
            &&& bucket_order(entities, bucket, mesh).len() <= slot < bucket_order(
                entities,
                bucket,
                mesh + 1,
            ).len()
        }),
    decreases meshes,
{
    if meshes > 0 {
        let earlier = bucket_order(entities, bucket, meshes - 1);
        let last = members(entities, meshes - 1, bucket, entities.len() as int);
        let order = bucket_order(entities, bucket, meshes);
        if slot < earlier.len() {
            assert(order[slot] == earlier[slot]);
            lemma_slot_in_block(entities, bucket, meshes - 1, slot);
        } else {
            assert(order[slot] == last[slot - earlier.len()]);
            lemma_members_bounds(entities, meshes - 1, bucket, entities.len() as int);
        }
    }
}

/// The draw ranges of a bucket cover each instance of its array exactly
/// once: a slot lies in the range of the mesh of the entity it holds, and in
/// the range of no other mesh.
pub proof fn lemma_each_slot_in_one_range(
    meshes: Seq<Mesh>,
    entities: Seq<Entity>,
    bucket: Bucket,
    slot: int,
)
    requires
        entities.len() <= u32::MAX,
        0 <= slot < bucket_order(entities, bucket, meshes.len() as int).len(),
    ensures
        ({
            let ranges = draw_ranges(meshes, entities, bucket);
            let at = bucket_order(entities, bucket, meshes.len() as int)[slot];
            let own = entities[at].mesh as int;
            &&& 0 <= own < meshes.len()
            &&& forall|mesh: int|
                0 <= mesh < meshes.len() ==> ((#[trigger] ranges[mesh]).1 <= slot < ranges[mesh].1
                    + ranges[mesh].2 <==> mesh == own)
        }),
{
    let count = meshes.len() as int;
    let total = entities.len() as int;
    let ranges = draw_ranges(meshes, entities, bucket);
    let at = bucket_order(entities, bucket, count)[slot];
    let own = entities[at].mesh as int;
    lemma_slot_in_block(entities, bucket, count, slot);
    lemma_bucket_order_len(entities, bucket, count);
    lemma_population_at_most(entities, bucket, count, total);
    assert forall|mesh: int| 0 <= mesh < count implies ((#[trigger] ranges[mesh]).1 <= slot
        < ranges[mesh].1 + ranges[mesh].2 <==> mesh == own) by {
        lemma_bucket_order_prefix(entities, bucket, mesh, count);
        lemma_bucket_order_prefix(entities, bucket, mesh + 1, count);
        lemma_members_bounds(entities, mesh, bucket, total);
        assert(ranges[mesh].1 == bucket_order(entities, bucket, mesh).len());
        assert(ranges[mesh].1 + ranges[mesh].2 == bucket_order(entities, bucket, mesh + 1).len());
        if mesh < own {
            lemma_bucket_order_prefix(entities, bucket, mesh + 1, own);
        } else if mesh > own {
            lemma_bucket_order_prefix(entities, bucket, own + 1, mesh);
        }
    }
}

} // verus!
