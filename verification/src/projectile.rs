//! Projectile behavior: spawn geometry and expiry.
//!
//! A projectile spawns at its source's first fire point, carried into
//! world space by the source's transform; it inherits the source's
//! velocity plus the projectile speed along the source's heading, and the
//! source's rotation.  It expires — its owning entity is removed — once
//! `now - fired_time >= lifetime`.

use crate::entity::{Drawable, Entity, EntityBuilder, Projectile};
use crate::math::{clamp_add, clamp_coord_spec, Vec2, COORD_LIMIT, UNIT};
use crate::physics::{all_bodies_wf, RigidBody, RigidBodySet};
use crate::resource::{table_wf, Resource, ResourceTable, FIRE_POINT_LIMIT};
use crate::store::Handle;
use crate::world_mutator::{PostInit, WorldMutator};
use vstd::prelude::*;

verus! {

/// How fast a projectile leaves its source, in world units per second.
pub const PROJECTILE_SPEED: i64 = 800;

/// How long a projectile lives, in milliseconds.
pub const PROJECTILE_LIFETIME_MS: u64 = 1000;

/// The x component of the local offset `p` rotated by the direction `dir`
/// (milli-scaled cosine/sine).
pub open spec fn rotate_x(dir: Vec2, p: Vec2) -> int {
    (p.x * dir.x - p.y * dir.y) / (UNIT as int)
}

/// The y component of the local offset `p` rotated by the direction `dir`.
pub open spec fn rotate_y(dir: Vec2, p: Vec2) -> int {
    (p.x * dir.y + p.y * dir.x) / (UNIT as int)
}

/// The body a projectile gets from its source: position at the rotated
/// fire point, the source's rotation, the source's velocity plus the
/// projectile speed along the source's heading; the angular velocity of
/// the template body stays.
pub open spec fn projectile_body(source: RigidBody, fire_point: Vec2, target: RigidBody)
    -> RigidBody {
    RigidBody {
        translation: Vec2 {
            x: clamp_coord_spec(
                source.translation.x + rotate_x(source.rotation.dir, fire_point),
            ) as i64,
            y: clamp_coord_spec(
                source.translation.y + rotate_y(source.rotation.dir, fire_point),
            ) as i64,
        },
        linvel: Vec2 {
            x: clamp_coord_spec(source.linvel.x + source.rotation.dir.x * PROJECTILE_SPEED) as i64,
            y: clamp_coord_spec(source.linvel.y + source.rotation.dir.y * PROJECTILE_SPEED) as i64,
        },
        rotation: source.rotation,
        angvel: target.angvel,
    }
}

/// Whether the spawn-transform initializer can run: the source still
/// resolves to a body, its template names at least one fire point, and the
/// target entity resolves to a body.
pub open spec fn can_set_projectile(
    target: Entity,
    source: Entity,
    bodies: Map<Handle, RigidBody>,
    table: Seq<Resource>,
) -> bool {
    &&& source.physics is Some
    &&& bodies.contains_key(source.physics.unwrap().rigid_body_handle)
    &&& table[source.resource as int].info.attributes is Some
    &&& table[source.resource as int].info.attributes.unwrap().fire_points is Some
    &&& table[source.resource as int].info.attributes.unwrap().fire_points.unwrap().points@.len()
        > 0
    &&& target.physics is Some
    &&& bodies.contains_key(target.physics.unwrap().rigid_body_handle)
}

/// Computes and writes a fresh projectile's spawn transform and velocity
/// from its source's current physics state.  Any missing piece — a stale
/// source, a template without fire points, a stale target — makes it a
/// silent no-op.
pub fn set_projectile_physics(
    entity: &Entity,
    source_entity: Entity,
    rigid_body_set: &mut RigidBodySet,
    resources: &ResourceTable,
) -> (r: Option<()>)
    requires
        old(rigid_body_set).wf(),
        all_bodies_wf(*old(rigid_body_set)),
        source_entity.resource < resources@.len(),
        table_wf(resources@),
    ensures
        final(rigid_body_set).wf(),
        all_bodies_wf(*final(rigid_body_set)),
        match r {
            Some(_) => {
                &&& can_set_projectile(*entity, source_entity, old(rigid_body_set)@, resources@)
                &&& final(rigid_body_set)@ == old(rigid_body_set)@.insert(
                    entity.physics.unwrap().rigid_body_handle,
                    projectile_body(
                        old(rigid_body_set)@[source_entity.physics.unwrap().rigid_body_handle],
                        resources@[source_entity.resource as int].info.attributes.unwrap()
                            .fire_points.unwrap().points@[0],
                        old(rigid_body_set)@[entity.physics.unwrap().rigid_body_handle],
                    ),
                )
            },
            None => {
                &&& !can_set_projectile(*entity, source_entity, old(rigid_body_set)@, resources@)
                &&& final(rigid_body_set)@ == old(rigid_body_set)@
            },
        },
{
    let source_body = match source_entity.get_rigid_body(rigid_body_set) {
        Some(b) => *b,
        None => {
            return None;
        },
    };
    let fire_points = match resources[source_entity.resource].info.fire_points() {
        Some(fp) => fp,
        None => {
            return None;
        },
    };
    let points = fire_points.get_point2s();
    if points.len() == 0 {
        return None;
    }
    let fire_point = points[0];
    let target_handle = match &entity.physics {
        Some(ph) => ph.rigid_body_handle,
        None => {
            return None;
        },
    };
    if !rigid_body_set.contains(target_handle) {
        return None;
    }
    let target_body = match rigid_body_set.get(target_handle) {
        Some(b) => *b,
        None => {
            proof {
                assert(false);
            }
            return None;
        },
    };
    let dir = source_body.rotation.dir;
    proof {
        assert(resources@[source_entity.resource as int].wf());
        assert(fire_point.bounded(FIRE_POINT_LIMIT as int));
        assert(source_body.wf());
        assert(forall|a: i64, b: i64|
            -FIRE_POINT_LIMIT <= a <= FIRE_POINT_LIMIT && -UNIT <= b <= UNIT
                ==> -1000000000 <= #[trigger] (a * b) <= 1000000000) by (nonlinear_arith);
    }
    let ox = crate::math::div_euclid_by(fire_point.x * dir.x - fire_point.y * dir.y, UNIT);
    let oy = crate::math::div_euclid_by(fire_point.x * dir.y + fire_point.y * dir.x, UNIT);
    let new_body = RigidBody {
        translation: Vec2 {
            x: clamp_add(source_body.translation.x, ox),
            y: clamp_add(source_body.translation.y, oy),
        },
        linvel: Vec2 {
            x: clamp_add(source_body.linvel.x, dir.x * PROJECTILE_SPEED),
            y: clamp_add(source_body.linvel.y, dir.y * PROJECTILE_SPEED),
        },
        rotation: source_body.rotation,
        angvel: target_body.angvel,
    };
    rigid_body_set.update(target_handle, new_body);
    Some(())
}

/// The entity record a projectile Add mutation carries.
pub open spec fn projectile_entity(bullet: usize, source: Handle, now: u64, lifetime: u64)
    -> Entity {
    Entity {
        entity_holder: None,
        resource: bullet,
        physics: None,
        drawable: Some(Drawable { resource: bullet }),
        player: None,
        projectile: Some(Projectile { source, fired_time: now, lifetime }),
    }
}

impl Entity {
    /// Builds the Add mutation for a projectile fired now by
    /// `source_entity` (whose record rides along for the spawn-transform
    /// initializer), stamped from the `bullet` template.
    pub fn spawn_projectile(
        source: Handle,
        source_entity: Entity,
        lifetime: u64,
        now: u64,
        bullet: usize,
    ) -> (r: Option<WorldMutator>)
        ensures
            r == Some(
                WorldMutator::Add(
                    projectile_entity(bullet, source, now, lifetime),
                    PostInit::ProjectileFrom { source: source_entity },
                ),
            ),
    {
        let drawable = match Drawable::from_resource(bullet) {
            Some(d) => d,
            None => {
                return None;
            },
        };
        let projectile = Projectile { source, fired_time: now, lifetime };
        let mut builder = EntityBuilder::new(bullet);
        builder.drawable(drawable);
        builder.projectile(projectile);
        Some(builder.build_mutator(PostInit::ProjectileFrom { source: source_entity }))
    }

    /// Whether this entity is an expired projectile at `now`.
    pub open spec fn expired(self, now: u64) -> bool {
        self.projectile is Some && now >= self.projectile.unwrap().fired_time
            + self.projectile.unwrap().lifetime
    }

    /// Signals expiry — a Remove of the owning entity — exactly when
    /// `now - fired_time >= lifetime`; without projectile state, or before
    /// the entity was inserted, it signals nothing.
    pub fn update_projectile(&self, current_time: u64) -> (r: Option<WorldMutator>)
        ensures
            match r {
                Some(m) => self.expired(current_time) && self.entity_holder is Some && m
                    == WorldMutator::Remove(self.entity_holder.unwrap()),
                None => !(self.expired(current_time) && self.entity_holder is Some),
            },
    {
        let projectile = match &self.projectile {
            Some(p) => p,
            None => {
                return None;
            },
        };
        let holder = match &self.entity_holder {
            Some(h) => *h,
            None => {
                return None;
            },
        };
        if current_time >= projectile.fired_time && current_time - projectile.fired_time
            >= projectile.lifetime {
            Some(WorldMutator::Remove(holder))
        } else {
            None
        }
    }
}

} // verus!
