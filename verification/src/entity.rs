//! Entities and their optional component slots.
//!
//! An entity is a record of optional capabilities — physics handle pair,
//! drawable reference, player state, projectile state — plus the index of
//! its resource template and, once inserted, its own handle.  The physics
//! pair is valid exactly while the entity resides in the store; physics
//! state is always read fresh from the sets, never cached here.

use crate::math::{Vec2, COORD_LIMIT};
use crate::physics::{all_bodies_wf, wrap_body, wrapped_translation, Physics, RigidBody, RigidBodySet, Rotation2};
use crate::store::Handle;
use vstd::prelude::*;

verus! {

/// The player's aim position in world space, refreshed from the cursor
/// each frame.
#[derive(Clone, Copy, Debug, PartialEq, Eq, Structural)]
pub struct MouseInfo {
    pub pos: Vec2,
}

impl Default for MouseInfo {
    /// Starts aiming at the world center.
    fn default() -> (m: MouseInfo)
        ensures
            m == (MouseInfo { pos: Vec2 { x: 0, y: 0 } }),
    {
        MouseInfo { pos: Vec2 { x: 0, y: 0 } }
    }
}

impl MouseInfo {
    /// Takes over the cursor's current world-space position.
    pub fn from_mouse(&mut self, pos: Vec2)
        ensures
            *final(self) == (MouseInfo { pos }),
    {
        self.pos = pos;
    }
}

/// Player state: aim position and the last-fire timestamp the cooldown
/// gate works from.
#[derive(Clone, Copy, Debug, PartialEq, Eq, Structural)]
pub struct Player {
    pub mouse_info: MouseInfo,
    pub last_fire_time: u64,
}

/// Projectile state.  The source handle is informational only — it may go
/// stale if the source is removed — and the owning entity is removed once
/// `now - fired_time >= lifetime`.
#[derive(Clone, Copy, Debug, PartialEq, Eq, Structural)]
pub struct Projectile {
    pub source: Handle,
    pub fired_time: u64,
    pub lifetime: u64,
}

/// A drawable: a reference to the resource template whose mesh the
/// renderer draws for this entity.
#[derive(Clone, Copy, Debug, PartialEq, Eq, Structural)]
pub struct Drawable {
    pub resource: usize,
}

impl Drawable {
    pub fn from_resource(resource: usize) -> (r: Option<Drawable>)
        ensures
            r == Some(Drawable { resource }),
    {
        Some(Drawable { resource })
    }
}

/// A full transform: translation plus rotation.
#[derive(Clone, Copy, Debug, PartialEq, Eq, Structural)]
pub struct Transform2 {
    pub translation: Vec2,
    pub rotation: Rotation2,
}

/// An entity record: optional component slots, the resource template
/// index, and (once inserted) its own handle.
#[derive(Clone, Copy, Debug)]
pub struct Entity {
    pub entity_holder: Option<Handle>,
    pub resource: usize,
    pub physics: Option<Physics>,
    pub drawable: Option<Drawable>,
    pub player: Option<Player>,
    pub projectile: Option<Projectile>,
}

/// Builds an entity intent: component slots are filled in, then the intent
/// is submitted as an Add mutation.
#[derive(Clone, Copy, Debug)]
pub struct EntityBuilder {
    entity: Entity,
}

impl EntityBuilder {
    /// The bare intent: a template reference and every slot empty.
    pub open spec fn blank(resource: usize) -> Entity {
        Entity {
            entity_holder: None,
            resource,
            physics: None,
            drawable: None,
            player: None,
            projectile: None,
        }
    }

    /// What the builder holds so far.
    pub closed spec fn spec_entity(self) -> Entity {
        self.entity
    }

    pub fn new(resource: usize) -> (b: EntityBuilder)
        ensures
            b.spec_entity() == Self::blank(resource),
    {
        EntityBuilder {
            entity: Entity {
                entity_holder: None,
                resource,
                physics: None,
                drawable: None,
                player: None,
                projectile: None,
            },
        }
    }

    /// Hands the intent out as it stands.
    pub fn force_build(self) -> (e: Entity)
        ensures
            e == self.spec_entity(),
    {
        self.entity
    }

    pub fn drawable(&mut self, drawable: Drawable) -> (b: &mut EntityBuilder)
        ensures
            (*b).spec_entity() == (Entity { drawable: Some(drawable), ..old(self).spec_entity() }),
            *final(self) == *final(b),
    {
        self.entity.drawable = Some(drawable);
        self
    }

    pub fn player(&mut self, player: Player) -> (b: &mut EntityBuilder)
        ensures
            (*b).spec_entity() == (Entity { player: Some(player), ..old(self).spec_entity() }),
            *final(self) == *final(b),
    {
        self.entity.player = Some(player);
        self
    }

    pub fn projectile(&mut self, projectile: Projectile) -> (b: &mut EntityBuilder)
        ensures
            (*b).spec_entity() == (Entity {
                projectile: Some(projectile),
                ..old(self).spec_entity()
            }),
            *final(self) == *final(b),
    {
        self.entity.projectile = Some(projectile);
        self
    }
}

impl Entity {
    /// Looks the entity's rigid body up in the set; `None` when the entity
    /// has no physics or its handle has gone stale.
    pub fn get_rigid_body<'a>(&self, rigid_body_set: &'a RigidBodySet) -> (r: Option<&'a RigidBody>)
        requires
            rigid_body_set.wf(),
        ensures
            match r {
                Some(b) => self.physics is Some && rigid_body_set@.contains_key(
                    self.physics.unwrap().rigid_body_handle,
                ) && *b == rigid_body_set@[self.physics.unwrap().rigid_body_handle],
                None => self.physics is None || !rigid_body_set@.contains_key(
                    self.physics.unwrap().rigid_body_handle,
                ),
            },
    {
        match &self.physics {
            Some(ph) => rigid_body_set.get(ph.rigid_body_handle),
            None => None,
        }
    }

    /// The entity's current transform, read fresh from the physics set.
    pub fn transform(&self, rigid_body_set: &RigidBodySet) -> (r: Option<Transform2>)
        requires
            rigid_body_set.wf(),
        ensures
            match r {
                Some(t) => self.physics is Some && rigid_body_set@.contains_key(
                    self.physics.unwrap().rigid_body_handle,
                ) && t == (Transform2 {
                    translation:
                        rigid_body_set@[self.physics.unwrap().rigid_body_handle].translation,
                    rotation: rigid_body_set@[self.physics.unwrap().rigid_body_handle].rotation,
                }),
                None => self.physics is None || !rigid_body_set@.contains_key(
                    self.physics.unwrap().rigid_body_handle,
                ),
            },
    {
        match self.get_rigid_body(rigid_body_set) {
            Some(b) => Some(Transform2 { translation: b.translation, rotation: b.rotation }),
            None => None,
        }
    }

    /// The entity's current position.
    pub fn pos(&self, rigid_body_set: &RigidBodySet) -> (r: Option<Vec2>)
        requires
            rigid_body_set.wf(),
        ensures
            match r {
                Some(p) => self.physics is Some && rigid_body_set@.contains_key(
                    self.physics.unwrap().rigid_body_handle,
                ) && p == rigid_body_set@[self.physics.unwrap().rigid_body_handle].translation,
                None => self.physics is None || !rigid_body_set@.contains_key(
                    self.physics.unwrap().rigid_body_handle,
                ),
            },
    {
        match self.get_rigid_body(rigid_body_set) {
            Some(b) => Some(b.translation),
            None => None,
        }
    }

    /// The entity's current linear velocity.
    pub fn velocity(&self, rigid_body_set: &RigidBodySet) -> (r: Option<Vec2>)
        requires
            rigid_body_set.wf(),
        ensures
            match r {
                Some(v) => self.physics is Some && rigid_body_set@.contains_key(
                    self.physics.unwrap().rigid_body_handle,
                ) && v == rigid_body_set@[self.physics.unwrap().rigid_body_handle].linvel,
                None => self.physics is None || !rigid_body_set@.contains_key(
                    self.physics.unwrap().rigid_body_handle,
                ),
            },
    {
        match self.get_rigid_body(rigid_body_set) {
            Some(b) => Some(b.linvel),
            None => None,
        }
    }

    /// The entity's current orientation.
    pub fn rotation(&self, rigid_body_set: &RigidBodySet) -> (r: Option<Rotation2>)
        requires
            rigid_body_set.wf(),
        ensures
            match r {
                Some(rot) => self.physics is Some && rigid_body_set@.contains_key(
                    self.physics.unwrap().rigid_body_handle,
                ) && rot == rigid_body_set@[self.physics.unwrap().rigid_body_handle].rotation,
                None => self.physics is None || !rigid_body_set@.contains_key(
                    self.physics.unwrap().rigid_body_handle,
                ),
            },
    {
        match self.get_rigid_body(rigid_body_set) {
            Some(b) => Some(b.rotation),
            None => None,
        }
    }

    /// Applies the toroidal wrap to the entity's body after a physics
    /// step: each translation axis is recomputed modulo its world extent.
    /// Without a live physics binding this is a silent no-op.
    pub fn update_entity_position(
        &self,
        rigid_body_set: &mut RigidBodySet,
        world_w: i64,
        world_h: i64,
    ) -> (r: Option<()>)
        requires
            old(rigid_body_set).wf(),
            all_bodies_wf(*old(rigid_body_set)),
            0 < world_w <= COORD_LIMIT,
            0 < world_h <= COORD_LIMIT,
        ensures
            final(rigid_body_set).wf(),
            all_bodies_wf(*final(rigid_body_set)),
            match r {
                Some(_) => {
                    &&& self.physics is Some
                    &&& old(rigid_body_set)@.contains_key(self.physics.unwrap().rigid_body_handle)
                    &&& final(rigid_body_set)@ == old(rigid_body_set)@.insert(
                        self.physics.unwrap().rigid_body_handle,
                        (RigidBody {
                            translation: wrapped_translation(
                                old(
                                    rigid_body_set,
                                )@[self.physics.unwrap().rigid_body_handle].translation,
                                world_w as int,
                                world_h as int,
                            ),
                            ..old(rigid_body_set)@[self.physics.unwrap().rigid_body_handle]
                        }),
                    )
                },
                None => {
                    &&& (self.physics is None || !old(rigid_body_set)@.contains_key(
                        self.physics.unwrap().rigid_body_handle,
                    ))
                    &&& final(rigid_body_set)@ == old(rigid_body_set)@
                },
            },
    {
        let handle = match &self.physics {
            Some(ph) => ph.rigid_body_handle,
            None => {
                return None;
            },
        };
        let mut body = match rigid_body_set.get(handle) {
            Some(b) => *b,
            None => {
                return None;
            },
        };
        wrap_body(&mut body, world_w, world_h);
        rigid_body_set.update(handle, body);
        Some(())
    }

    /// The player's aim state, when this entity carries player state.
    pub fn mouse_info(&self) -> (r: Option<&MouseInfo>)
        ensures
            match r {
                Some(m) => self.player is Some && *m == self.player.unwrap().mouse_info,
                None => self.player is None,
            },
    {
        match &self.player {
            Some(p) => Some(&p.mouse_info),
            None => None,
        }
    }

    /// Refreshes the player's aim position from the cursor; without player
    /// state this is a silent no-op.
    pub fn update_mouse(&mut self, pos: Vec2)
        ensures
            match old(self).player {
                Some(p) => *final(self) == (Entity {
                    player: Some(
                        Player { mouse_info: MouseInfo { pos }, last_fire_time: p.last_fire_time },
                    ),
                    ..*old(self)
                }),
                None => *final(self) == *old(self),
            },
    {
        match &mut self.player {
            Some(p) => p.mouse_info.from_mouse(pos),
            None => {
            },
        }
    }
}

} // verus!
