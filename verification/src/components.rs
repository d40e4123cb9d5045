//! Requests that the editor UI queues for the systems that change the scene.
//! Entities are identified by their 64-bit id.

use vstd::prelude::*;
use crate::text::joined;

verus! {

/// What kind of entity to spawn.
#[derive(Debug, Clone, Copy, PartialEq, Eq, Structural)]
pub enum SpawnRequest {
    /// A cube primitive.
    Cube,
    /// A sphere primitive.
    Sphere,
    /// A plane primitive.
    Plane,
    /// A camera.
    Camera,
    /// A directional light.
    DirectionalLight,
    /// A point light.
    PointLight,
    /// An empty entity (transform and name only).
    Empty,
    /// A child of the given parent entity.
    ChildOf {
        /// The parent entity.
        parent: u64,
    },
}

/// Request to delete an entity (and all its children).
#[derive(Debug, Clone, Copy, PartialEq, Eq, Structural)]
pub struct DeleteEntityRequest {
    /// The entity to delete.
    pub entity: u64,
}

/// Request to rename an entity.
#[derive(Debug)]
pub struct RenameEntityRequest {
    /// The entity to rename.
    pub entity: u64,
    /// The new name.
    pub new_name: String,
}

/// Request to save the current scene.
#[derive(Debug, Clone, Copy, PartialEq, Eq, Structural)]
pub struct SaveSceneRequest;

/// Request to load a scene from a file.
#[derive(Debug)]
pub struct LoadSceneRequest {
    /// The path to load from.
    pub path: String,
}

/// Request to duplicate an entity.
#[derive(Debug, Clone, Copy, PartialEq, Eq, Structural)]
pub struct DuplicateEntityRequest {
    /// The entity to duplicate.
    pub entity: u64,
}

/// Request to hide an entity (`hidden`) or show it again.
#[derive(Debug, Clone, Copy, PartialEq, Eq, Structural)]
pub struct SetHiddenRequest {
    /// The entity to hide or show.
    pub entity: u64,
    /// Hide it (`true`) or show it (`false`).
    pub hidden: bool,
}

/// Request to lock an entity (`locked`: it can no longer be selected or modified) or
/// unlock it.
#[derive(Debug, Clone, Copy, PartialEq, Eq, Structural)]
pub struct SetLockedRequest {
    /// The entity to lock or unlock.
    pub entity: u64,
    /// Lock it (`true`) or unlock it (`false`).
    pub locked: bool,
}

/// The name given to the duplicate of an entity named `name` (or of an unnamed entity).
pub open spec fn duplicate_name_of(name: Option<Seq<char>>) -> Seq<char> {
    match name {
        Some(n) => n + " (copy)"@,
        None => "Entity (copy)"@,
    }
}

/// The name of the duplicate of an entity: its name followed by ` (copy)`, or
/// `Entity (copy)` when it has no name.
pub fn duplicate_name(name: Option<&str>) -> (r: String)
    ensures
        r@ == duplicate_name_of(
            match name {
                Some(n) => Some(n@),
                None => None,
            },
        ),
{
    match name {
        Some(n) => joined(n, " (copy)"),
        None => String::from_str("Entity (copy)"),
    }
}

} // verus!
