//! The draw calls of one frame, in the order in which they are issued.

use std::ops::Range;
use vstd::prelude::*;
use crate::gauss::{Gaussian, QUAD_VERTEX_COUNT};
use crate::graphics::{within_limits, Partition};
use crate::partition::{
    lemma_bucket_order_len, lemma_bucket_order_prefix, lemma_members_bounds,
    lemma_population_at_most,
};
use crate::types::{Bucket, Entity};
use crate::types::Mesh;

verus! {

/// The passes of a frame, in the order in which they are drawn.
#[derive(Clone, Copy, Debug, PartialEq, Eq, Structural)]
pub enum DrawPass {
    /// The opaque instances, back faces culled.
    Opaque,
    /// The back faces of the transparent instances.
    TransparentBack,
    /// The front faces of the transparent instances, over their back faces.
    TransparentFront,
    /// The splats, last, on a quad each.
    Gaussian,
}

/// One command of the render pass.
#[derive(Debug, PartialEq, Eq)]
pub enum RenderStep {
    /// Set the pipeline of the pass and bind its instance array beside the
    /// shared vertex and index buffers.
    Bind(DrawPass),
    /// Draw the instances in `instances` with the indices in `indices`,
    /// each index raised by `base_vertex`.
    DrawIndexed { indices: Range<u32>, base_vertex: i32, instances: Range<u32> },
    /// Draw the instances in `instances` with the vertices in `vertices`.
    Draw { vertices: Range<u32>, instances: Range<u32> },
}

/// The number of indices of the first `upto` meshes: where the indices of
/// the next mesh start in the shared index buffer.
pub open spec fn index_start(meshes: Seq<Mesh>, upto: int) -> int
    decreases upto,
{
    if upto <= 0 {
        0
    } else {
        index_start(meshes, upto - 1) + meshes[upto - 1].indices@.len()
    }
}

/// The draw call of mesh `mesh` with the draw range `range`.
pub open spec fn mesh_draw(meshes: Seq<Mesh>, range: (i32, u32, u32), mesh: int) -> RenderStep {
    RenderStep::DrawIndexed {
        indices: Range {
            start: index_start(meshes, mesh) as u32,
            end: index_start(meshes, mesh + 1) as u32,
        },
        base_vertex: range.0,
        instances: Range { start: range.1, end: (range.1 + range.2) as u32 },
    }
}

/// One draw call for each of the first `upto` meshes that has an instance in
/// the array, in table order.
pub open spec fn mesh_draws(meshes: Seq<Mesh>, ranges: Seq<(i32, u32, u32)>, upto: int) -> Seq<
    RenderStep,
>
    decreases upto,
{
    if upto <= 0 {
        Seq::empty()
    } else if ranges[upto - 1].2 == 0 {
        mesh_draws(meshes, ranges, upto - 1)
    } else {
        mesh_draws(meshes, ranges, upto - 1).push(mesh_draw(meshes, ranges[upto - 1], upto - 1))
    }
}

/// The commands of one mesh pass: none where its instance array is empty.
pub open spec fn pass_steps(
    pass: DrawPass,
    instances: nat,
    meshes: Seq<Mesh>,
    ranges: Seq<(i32, u32, u32)>,
) -> Seq<RenderStep> {
    if instances == 0 {
        Seq::empty()
    } else {
        seq![RenderStep::Bind(pass)] + mesh_draws(meshes, ranges, meshes.len() as int)
    }
}

/// The commands of the splat pass: one draw of a quad for all splats, and
/// none where there is no splat.
pub open spec fn gauss_steps(gaussians: nat) -> Seq<RenderStep> {
    if gaussians == 0 {
        Seq::empty()
    } else {
        seq![
            RenderStep::Bind(DrawPass::Gaussian),
            RenderStep::Draw {
                vertices: Range { start: 0, end: QUAD_VERTEX_COUNT },
                instances: Range { start: 0, end: gaussians as u32 },
            },
        ]
    }
}

/// The commands of a frame: opaque, transparent back faces, transparent
/// front faces, splats.
pub open spec fn frame_steps(meshes: Seq<Mesh>, partition: Partition, gaussians: nat) -> Seq<
    RenderStep,
> {
    pass_steps(DrawPass::Opaque, partition.instances@.len(), meshes, partition.mesh_mappings@)
        + pass_steps(
        DrawPass::TransparentBack,
        partition.instances_transparent@.len(),
        meshes,
        partition.mesh_mappings_transparent@,
    ) + pass_steps(
        DrawPass::TransparentFront,
        partition.instances_transparent@.len(),
        meshes,
        partition.mesh_mappings_transparent@,
    ) + gauss_steps(gaussians)
}

/// Whether each mesh has a draw range and each range ends within `u32`.
pub open spec fn ranges_fit(meshes: Seq<Mesh>, ranges: Seq<(i32, u32, u32)>) -> bool {
    &&& ranges.len() == meshes.len()
    &&& forall|mesh: int|
        0 <= mesh < ranges.len() ==> (#[trigger] ranges[mesh]).1 + ranges[mesh].2 <= u32::MAX
}

/// Whether the frame can be drawn: both tables of draw ranges fit the mesh
/// table, and indices and splats can be counted in `u32`.
pub open spec fn drawable(meshes: Seq<Mesh>, partition: Partition, gaussians: nat) -> bool {
    &&& ranges_fit(meshes, partition.mesh_mappings@)
    &&& ranges_fit(meshes, partition.mesh_mappings_transparent@)
    &&& index_start(meshes, meshes.len() as int) <= u32::MAX
    &&& gaussians <= u32::MAX
}

/// The index counts grow along the table.
pub proof fn lemma_index_start_grows(meshes: Seq<Mesh>, lower: int, upper: int)
    requires
        lower <= upper,
    ensures
        0 <= index_start(meshes, lower) <= index_start(meshes, upper),
    decreases upper - lower,
{
    if lower < upper {
        lemma_index_start_grows(meshes, lower, upper - 1);
    } else {
        lemma_index_start_nonnegative(meshes, lower);
    }
}

/// No index count is negative.
pub proof fn lemma_index_start_nonnegative(meshes: Seq<Mesh>, upto: int)
    ensures
        0 <= index_start(meshes, upto),
    decreases upto,
{
    if upto > 0 {
        lemma_index_start_nonnegative(meshes, upto - 1);
    }
}

/// The draw ranges that a rebuild makes of a scene within the limits fit
/// its mesh table: the frame can be drawn if its indices and its splats can
/// be counted.
pub proof fn lemma_partition_ranges_fit(
    meshes: Seq<Mesh>,
    entities: Seq<Entity>,
    gaussians: Seq<Gaussian>,
    partition: Partition,
)
    requires
        within_limits(meshes, entities),
        partition.is_partition_of(meshes, entities, gaussians),
    ensures
        ranges_fit(meshes, partition.mesh_mappings@),
        ranges_fit(meshes, partition.mesh_mappings_transparent@),
{
    let count = meshes.len() as int;
    let total = entities.len() as int;
    assert forall|mesh: int| 0 <= mesh < count implies (
    #[trigger] partition.mesh_mappings@[mesh]).1 + partition.mesh_mappings@[mesh].2
        <= u32::MAX by {
        lemma_bucket_order_prefix(entities, Bucket::Opaque, mesh + 1, count);
        lemma_bucket_order_prefix(entities, Bucket::Opaque, mesh, mesh + 1);
        lemma_bucket_order_len(entities, Bucket::Opaque, count);
        lemma_population_at_most(entities, Bucket::Opaque, count, total);
        lemma_members_bounds(entities, mesh, Bucket::Opaque, total);
    }
    assert forall|mesh: int| 0 <= mesh < count implies (
    #[trigger] partition.mesh_mappings_transparent@[mesh]).1
        + partition.mesh_mappings_transparent@[mesh].2 <= u32::MAX by {
        lemma_bucket_order_prefix(entities, Bucket::Transparent, mesh + 1, count);
        lemma_bucket_order_prefix(entities, Bucket::Transparent, mesh, mesh + 1);
        lemma_bucket_order_len(entities, Bucket::Transparent, count);
        lemma_population_at_most(entities, Bucket::Transparent, count, total);
        lemma_members_bounds(entities, mesh, Bucket::Transparent, total);
    }
}

/// Whether each mesh has a draw range and each range ends within `u32`.
fn check_ranges(meshes: &Vec<Mesh>, mappings: &Vec<(i32, u32, u32)>) -> (fits: bool)
    ensures
        fits == ranges_fit(meshes@, mappings@),
{
    if mappings.len() != meshes.len() {
        return false;
    }
    let mut i: usize = 0;
    while i < mappings.len()
        invariant
            i <= mappings@.len(),
            mappings@.len() == meshes@.len(),
            forall|mesh: int|
                0 <= mesh < i ==> (#[trigger] mappings@[mesh]).1 + mappings@[mesh].2 <= u32::MAX,
        decreases mappings@.len() - i,
    {
        let (_, start, count) = mappings[i];
        if start as u64 + count as u64 > u32::MAX as u64 {
            return false;
        }
        i += 1;
    }
    true
}

/// Whether the frame can be drawn.
pub fn can_draw(meshes: &Vec<Mesh>, partition: &Partition, gaussians: &Vec<Gaussian>) -> (fits: bool)
    ensures
        fits == drawable(meshes@, *partition, gaussians@.len()),
{
    if gaussians.len() as u64 > u32::MAX as u64 {
        return false;
    }
    if !check_ranges(meshes, &partition.mesh_mappings) {
        return false;
    }
    if !check_ranges(meshes, &partition.mesh_mappings_transparent) {
        return false;
    }
    let mut indices: u64 = 0;
    let mut i: usize = 0;
    while i < meshes.len()
        invariant
            i <= meshes@.len(),
            indices == index_start(meshes@, i as int),
            indices <= u32::MAX,
        decreases meshes@.len() - i,
    {
        let more = meshes[i].indices.len() as u64;
        proof {
            lemma_index_start_grows(meshes@, i + 1, meshes@.len() as int);
        }
        if more > u32::MAX as u64 - indices {
            return false;
        }
        indices += more;
        i += 1;
    }
    true
}

/// No draw call is issued for nothing: each command among the mesh draws is
/// an indexed draw of at least one instance.
pub proof fn lemma_no_empty_draw(meshes: Seq<Mesh>, ranges: Seq<(i32, u32, u32)>, upto: int)
    requires
        ranges_fit(meshes, ranges),
        upto <= meshes.len(),
    ensures
        forall|i: int|
            0 <= i < mesh_draws(meshes, ranges, upto).len() ==> (#[trigger] mesh_draws(
                meshes,
                ranges,
                upto,
            )[i] matches RenderStep::DrawIndexed { instances, .. } && instances.start
                < instances.end),
    decreases upto,
{
    if upto > 0 {
        lemma_no_empty_draw(meshes, ranges, upto - 1);
        let range = ranges[upto - 1];
        assert(range.1 + range.2 <= u32::MAX);
    }
}

/// Appends the commands of one mesh pass to `steps`.
fn push_pass(
    steps: &mut Vec<RenderStep>,
    pass: DrawPass,
    instances: usize,
    meshes: &Vec<Mesh>,
    mappings: &Vec<(i32, u32, u32)>,
)
    requires
        ranges_fit(meshes@, mappings@),
        index_start(meshes@, meshes@.len() as int) <= u32::MAX,
    ensures
        final(steps)@ == old(steps)@ + pass_steps(pass, instances as nat, meshes@, mappings@),
{
    if instances == 0 {
        assert(steps@ =~= old(steps)@ + pass_steps(pass, instances as nat, meshes@, mappings@));
        return ;
    }
    steps.push(RenderStep::Bind(pass));

    let mut start_ind: u32 = 0;
    let mut i: usize = 0;
    while i < meshes.len()
        invariant
            i <= meshes@.len(),
            ranges_fit(meshes@, mappings@),
            index_start(meshes@, meshes@.len() as int) <= u32::MAX,
            start_ind == index_start(meshes@, i as int),
            steps@ == old(steps)@ + seq![RenderStep::Bind(pass)] + mesh_draws(
                meshes@,
                mappings@,
                i as int,
            ),
        decreases meshes@.len() - i,
    {
        proof {
            lemma_index_start_grows(meshes@, i + 1, meshes@.len() as int);
            lemma_index_start_grows(meshes@, i as int, i + 1);
        }
        let (vertex_start_this_mesh, instance_start_this_mesh, instance_count_this_mesh) =
            mappings[i];
        let index_count = meshes[i].indices.len() as u32;
        if instance_count_this_mesh != 0 {
            steps.push(
                RenderStep::DrawIndexed {
                    indices: start_ind..start_ind + index_count,
                    base_vertex: vertex_start_this_mesh,
                    instances: instance_start_this_mesh..instance_start_this_mesh
                        + instance_count_this_mesh,
                },
            );
        }
        start_ind += index_count;
        i += 1;
        assert(steps@ =~= old(steps)@ + seq![RenderStep::Bind(pass)] + mesh_draws(
            meshes@,
            mappings@,
            i as int,
        ));
    }
    assert(steps@ =~= old(steps)@ + pass_steps(pass, instances as nat, meshes@, mappings@));
}

/// The commands that draw the frame. A pass whose instance array is empty
/// is left out whole, and so is a mesh without an instance in the array of
/// the pass: no draw call is issued for nothing.
pub fn setup_render_pass(
    meshes: &Vec<Mesh>,
    partition: &Partition,
    gaussians: &Vec<Gaussian>,
) -> (steps: Vec<RenderStep>)
    requires
        drawable(meshes@, *partition, gaussians@.len()),
    ensures
        steps@ == frame_steps(meshes@, *partition, gaussians@.len()),
{
    let mut steps: Vec<RenderStep> = Vec::new();
    push_pass(
        &mut steps,
        DrawPass::Opaque,
        partition.instances.len(),
        meshes,
        &partition.mesh_mappings,
    );
    push_pass(
        &mut steps,
        DrawPass::TransparentBack,
        partition.instances_transparent.len(),
        meshes,
        &partition.mesh_mappings_transparent,
    );
    push_pass(
        &mut steps,
        DrawPass::TransparentFront,
        partition.instances_transparent.len(),
        meshes,
        &partition.mesh_mappings_transparent,
    );
    if !gaussians.is_empty() {
        steps.push(RenderStep::Bind(DrawPass::Gaussian));
        steps.push(
            RenderStep::Draw {
                vertices: 0..QUAD_VERTEX_COUNT,
                instances: 0..gaussians.len() as u32,
            },
        );
    }
    assert(steps@ =~= frame_steps(meshes@, *partition, gaussians@.len()));
    steps
}

} // verus!
