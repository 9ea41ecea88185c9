//! The core's model of the physics state: rigid bodies, colliders parented
//! to them, and the attach/detach protocol that keeps one body and one
//! collider per entity.
//!
//! Positions, velocities and angles are fixed-point integers.  An external
//! integrator advances the bodies between frames; this module owns the
//! bookkeeping and the wrap of positions into the toroidal world.

use crate::collision::InteractionGroups;
use crate::math::{wrap, wrap_spec, Vec2, COORD_LIMIT, HALF_TURN, UNIT};
use crate::resource::Resource;
use crate::store::{GenArena, Handle};
use vstd::prelude::*;

verus! {

/// An orientation: an angle in milli-degrees together with its unit
/// direction vector in milli-scale, as the external trigonometry reports
/// it.
#[derive(Clone, Copy, Debug, PartialEq, Eq, Structural)]
pub struct Rotation2 {
    pub angle: i64,
    pub dir: Vec2,
}

impl Rotation2 {
    /// The angle is normalized and the direction components are unit-sized.
    pub open spec fn wf(self) -> bool {
        &&& -HALF_TURN <= self.angle <= HALF_TURN
        &&& self.dir.bounded(UNIT as int)
    }

    /// The identity rotation: angle zero, pointing along the x axis.
    pub fn identity() -> (r: Rotation2)
        ensures
            r == (Rotation2 { angle: 0, dir: Vec2 { x: UNIT, y: 0 } }),
            r.wf(),
    {
        Rotation2 { angle: 0, dir: Vec2 { x: UNIT, y: 0 } }
    }
}

/// A rigid body: translation, linear velocity, orientation, angular
/// velocity.  The set it lives in is the sole source of truth; entities
/// never cache any of these values.
#[derive(Clone, Copy, Debug, PartialEq, Eq, Structural)]
pub struct RigidBody {
    pub translation: Vec2,
    pub linvel: Vec2,
    pub rotation: Rotation2,
    pub angvel: i64,
}

impl RigidBody {
    /// All components within the ranges the world accepts.
    pub open spec fn wf(self) -> bool {
        &&& self.translation.bounded(COORD_LIMIT as int)
        &&& self.linvel.bounded(COORD_LIMIT as int)
        &&& self.rotation.wf()
        &&& -3 * HALF_TURN <= self.angvel <= 3 * HALF_TURN
    }

    /// A body at rest at the origin.
    pub fn at_rest() -> (b: RigidBody)
        ensures
            b == (RigidBody {
                translation: Vec2 { x: 0, y: 0 },
                linvel: Vec2 { x: 0, y: 0 },
                rotation: Rotation2 { angle: 0, dir: Vec2 { x: UNIT, y: 0 } },
                angvel: 0,
            }),
            b.wf(),
    {
        RigidBody {
            translation: Vec2 { x: 0, y: 0 },
            linvel: Vec2 { x: 0, y: 0 },
            rotation: Rotation2::identity(),
            angvel: 0,
        }
    }
}

/// A collider, parented to a rigid body once attached.
#[derive(Clone, Copy, Debug, PartialEq, Eq, Structural)]
pub struct Collider {
    pub parent: Option<Handle>,
    pub group: Option<InteractionGroups>,
}

/// The set of rigid bodies.
pub type RigidBodySet = GenArena<RigidBody>;

/// Every body held in the set is well-formed.
pub open spec fn all_bodies_wf(s: RigidBodySet) -> bool {
    forall|h: Handle| s@.contains_key(h) ==> s@[h].wf()
}

/// The set of colliders.
pub type ColliderSet = GenArena<Collider>;

/// The handle pair tying an entity to its body and collider.  The pair is
/// created and destroyed together; it is valid exactly while the entity
/// resides in the store.
#[derive(Clone, Copy, Debug, PartialEq, Eq, Structural)]
pub struct Physics {
    pub rigid_body_handle: Handle,
    pub collider_handle: Handle,
}

/// Clones the template's rigid body and collider into the sets, the
/// collider parented to the new body; fails without touching either set
/// when the template lacks a body or a collider shape.
pub fn attach(resource: &Resource, rigid_body_set: &mut RigidBodySet, collider_set: &mut ColliderSet)
    -> (r: Option<Physics>)
    requires
        old(rigid_body_set).wf(),
        old(collider_set).wf(),
    ensures
        final(rigid_body_set).wf(),
        final(collider_set).wf(),
        match r {
            Some(ph) => {
                &&& resource.info.rigid_body is Some
                &&& resource.info.collider is Some
                &&& !old(rigid_body_set)@.contains_key(ph.rigid_body_handle)
                &&& !old(collider_set)@.contains_key(ph.collider_handle)
                &&& final(rigid_body_set)@ == old(rigid_body_set)@.insert(
                    ph.rigid_body_handle,
                    resource.info.rigid_body.unwrap(),
                )
                &&& final(collider_set)@ == old(collider_set)@.insert(
                    ph.collider_handle,
                    Collider {
                        parent: Some(ph.rigid_body_handle),
                        group: resource.info.collider.unwrap().group,
                    },
                )
            },
            None => {
                &&& resource.info.rigid_body is None || resource.info.collider is None
                &&& final(rigid_body_set)@ == old(rigid_body_set)@
                &&& final(collider_set)@ == old(collider_set)@
            },
        },
{
    let body = match &resource.info.rigid_body {
        Some(b) => *b,
        None => {
            return None;
        },
    };
    let collider = match &resource.info.collider {
        Some(c) => *c,
        None => {
            return None;
        },
    };
    let rigid_body_handle = rigid_body_set.insert(body);
    let collider_handle = collider_set.insert(
        Collider { parent: Some(rigid_body_handle), group: collider.group },
    );
    Some(Physics { rigid_body_handle, collider_handle })
}

/// Removes the collider, then the rigid body, from their sets.  Must be
/// called at most once per handle pair: both handles are dead afterwards.
pub fn detach(
    physics: Physics,
    rigid_body_set: &mut RigidBodySet,
    collider_set: &mut ColliderSet,
)
    requires
        old(rigid_body_set).wf(),
        old(collider_set).wf(),
        old(rigid_body_set)@.contains_key(physics.rigid_body_handle),
        old(collider_set)@.contains_key(physics.collider_handle),
    ensures
        final(rigid_body_set).wf(),
        final(collider_set).wf(),
        final(rigid_body_set)@ == old(rigid_body_set)@.remove(physics.rigid_body_handle),
        final(collider_set)@ == old(collider_set)@.remove(physics.collider_handle),
{
    let _ = collider_set.remove(physics.collider_handle);
    let _ = rigid_body_set.remove(physics.rigid_body_handle);
}

/// The translation a body gets after the wrap pass, each axis wrapped into
/// its world extent.
pub open spec fn wrapped_translation(t: Vec2, world_w: int, world_h: int) -> Vec2 {
    Vec2 { x: wrap_spec(t.x as int, world_w) as i64, y: wrap_spec(t.y as int, world_h) as i64 }
}

/// Wraps a position into the toroidal world: each axis is recomputed
/// modulo its extent, landing in `[-(extent / 2), extent - extent / 2)`.
pub fn crop_to_world(pos: Vec2, world_w: i64, world_h: i64) -> (r: Vec2)
    requires
        0 < world_w <= COORD_LIMIT,
        0 < world_h <= COORD_LIMIT,
    ensures
        r == wrapped_translation(pos, world_w as int, world_h as int),
        r.bounded(COORD_LIMIT as int),
{
    Vec2 { x: wrap(pos.x, world_w), y: wrap(pos.y, world_h) }
}

/// Wraps a body's translation into the world extents, leaving everything
/// else about it unchanged.
pub fn wrap_body(body: &mut RigidBody, world_w: i64, world_h: i64)
    requires
        0 < world_w <= COORD_LIMIT,
        0 < world_h <= COORD_LIMIT,
        old(body).wf(),
    ensures
        final(body).wf(),
        *final(body) == (RigidBody {
            translation: wrapped_translation(old(body).translation, world_w as int, world_h as int),
            ..*old(body)
        }),
{
    body.translation = crop_to_world(body.translation, world_w, world_h);
}

} // verus!
