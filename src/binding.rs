use rapier2d::dynamics::RigidBodyHandle;
use rapier2d::geometry::ColliderHandle;
use vstd::prelude::*;

use crate::cell::Cell;
use crate::pathways::Motion;

verus! {

/// Handle of a rigid body in the physics world.
#[verifier::external_type_specification]
#[verifier::external_body]
pub struct ExRigidBodyHandle(RigidBodyHandle);

/// Handle of a collider in the physics world.
#[verifier::external_type_specification]
#[verifier::external_body]
pub struct ExColliderHandle(ColliderHandle);

/// A live slot of the world: the cell and the handles of its body and
/// collider in the physics world, which the slot refers to but does not own.
#[derive(Clone, Copy, Debug, PartialEq)]
pub struct CellWrapper {
    pub inner: Cell,
    pub collider_handle: ColliderHandle,
    pub rigid_body_handle: RigidBodyHandle,
    pub index: usize,
}

/// The outcome of one cell's tick, to be committed: either the cell died, or
/// the motion and the new size it produced, each only where it changed.
#[derive(Clone, Copy, Debug, PartialEq)]
pub struct CellChanges {
    pub index: usize,
    pub rigid_body_handle: RigidBodyHandle,
    pub collider_handle: ColliderHandle,
    pub dead: bool,
    pub velocity: Option<Motion>,
    pub size: Option<u128>,
}

/// A write into the physics world that committing a tick calls for.
#[derive(Clone, Copy, Debug, PartialEq)]
pub enum PhysicsCommand {
    /// Add the motion to the body's velocity.
    AddVelocity { body: RigidBodyHandle, motion: Motion },
    /// Give the collider the shape of a ball that matches the cell size.
    Resize { collider: ColliderHandle, size: u128 },
    /// Take the body and its collider out of the physics world.
    Remove { body: RigidBodyHandle, collider: ColliderHandle },
}

} // verus!
