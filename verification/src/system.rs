//! What the engine redoes after a callback has changed the scene.

use vstd::prelude::*;
use crate::types::EngineUpdates;

verus! {

/// One piece of work on the GPU buffers.
#[derive(Clone, Copy, Debug, PartialEq, Eq, Structural)]
pub enum EngineAction {
    /// Fill the vertex buffer and the index buffer from the meshes.
    SetupVerticesIndices,
    /// Rebuild the instance arrays from the registry.
    SetupEntities,
    /// Write the camera to its buffer.
    UpdateCamera,
    /// Write the lights to their buffer.
    UpdateLighting,
}

/// The actions that `updates` asks for. New meshes need the instance arrays
/// rebuilt too, since their draw ranges hold vertex offsets.
pub open spec fn engine_actions(updates: EngineUpdates) -> Seq<EngineAction> {
    let meshes = if updates.meshes {
        seq![EngineAction::SetupVerticesIndices, EngineAction::SetupEntities]
    } else {
        Seq::empty()
    };
    let entities = if updates.entities {
        seq![EngineAction::SetupEntities]
    } else {
        Seq::empty()
    };
    let camera = if updates.camera {
        seq![EngineAction::UpdateCamera]
    } else {
        Seq::empty()
    };
    let lighting = if updates.lighting {
        seq![EngineAction::UpdateLighting]
    } else {
        Seq::empty()
    };
    meshes + entities + camera + lighting
}

/// The work that the flags of `engine_updates` ask for, in the order in
/// which it is done: meshes, entities, camera, lighting.
pub fn process_engine_updates(engine_updates: &EngineUpdates) -> (actions: Vec<EngineAction>)
    ensures
        actions@ == engine_actions(*engine_updates),
{
    let mut actions: Vec<EngineAction> = Vec::new();
    if engine_updates.meshes {
        actions.push(EngineAction::SetupVerticesIndices);
        actions.push(EngineAction::SetupEntities);
    }
    if engine_updates.entities {
        actions.push(EngineAction::SetupEntities);
    }
    if engine_updates.camera {
        actions.push(EngineAction::UpdateCamera);
    }
    if engine_updates.lighting {
        actions.push(EngineAction::UpdateLighting);
    }
    assert(actions@ =~= engine_actions(*engine_updates));
    actions
}

} // verus!
