//! The world orchestrator: sole owner of the entity store and both
//! physics sets, and the per-frame update sequence.
//!
//! Every live entity is fully attached — it holds its own handle, a rigid
//! body present in the body set, and a collider present in the collider
//! set and parented to that body — and no two entities share physics
//! handles.  Structural mutations keep that invariant: an Add either fully
//! succeeds or leaves the world exactly as it was.

use crate::entity::{Drawable, Entity, EntityBuilder, MouseInfo, Player, Projectile, Transform2};
use crate::math::{place_coord_spec, place_on_map, Vec2, COORD_LIMIT, UNIT};
use crate::physics::{
    all_bodies_wf, attach, detach, wrapped_translation, Collider, ColliderSet, RigidBody,
    RigidBodySet, Rotation2,
};
use crate::player::{controlled_body, InputState, FIRE_COOLDOWN_MS};
use crate::projectile::{
    can_set_projectile, projectile_body, projectile_entity, set_projectile_physics,
    PROJECTILE_LIFETIME_MS,
};
use crate::resource::{table_wf, Resource, ResourceTable};
use crate::store::{GenArena, Handle};
use crate::world_mutator::{PostInit, WorldMutator};
use vstd::prelude::*;

verus! {

/// An entity at `h` in the store `es` is fully attached: it carries its
/// own handle, its body is in `bodies`, and its collider is in `colliders`
/// and parented to that body.
pub open spec fn linked(
    es: Map<Handle, Entity>,
    bodies: Map<Handle, RigidBody>,
    colliders: Map<Handle, Collider>,
    h: Handle,
) -> bool {
    let e = es[h];
    &&& e.entity_holder == Some(h)
    &&& e.physics is Some
    &&& bodies.contains_key(e.physics.unwrap().rigid_body_handle)
    &&& colliders.contains_key(e.physics.unwrap().collider_handle)
    &&& colliders[e.physics.unwrap().collider_handle].parent == Some(
        e.physics.unwrap().rigid_body_handle,
    )
}

/// Two entities share no physics handles.
pub open spec fn distinct_physics(a: Entity, b: Entity) -> bool {
    &&& a.physics.unwrap().rigid_body_handle != b.physics.unwrap().rigid_body_handle
    &&& a.physics.unwrap().collider_handle != b.physics.unwrap().collider_handle
}

/// The bodies after a one-shot initializer has run on a freshly attached
/// entity.  A placement moves the body and resets its orientation; the
/// projectile initializer stamps the spawn transform and velocity from the
/// source's current state; a missing piece leaves the set untouched.
pub open spec fn post_init_bodies(
    init: PostInit,
    bodies: Map<Handle, RigidBody>,
    target: Entity,
    table: Seq<Resource>,
) -> Map<Handle, RigidBody> {
    match init {
        PostInit::Noop => bodies,
        PostInit::PlaceAt { pos } => {
            if target.physics is Some && bodies.contains_key(
                target.physics.unwrap().rigid_body_handle,
            ) {
                let rb = target.physics.unwrap().rigid_body_handle;
                bodies.insert(
                    rb,
                    RigidBody {
                        translation: pos,
                        rotation: Rotation2 { angle: 0, dir: Vec2 { x: UNIT, y: 0 } },
                        linvel: bodies[rb].linvel,
                        angvel: bodies[rb].angvel,
                    },
                )
            } else {
                bodies
            }
        },
        PostInit::ProjectileFrom { source } => {
            if can_set_projectile(target, source, bodies, table) {
                let rb = target.physics.unwrap().rigid_body_handle;
                bodies.insert(
                    rb,
                    projectile_body(
                        bodies[source.physics.unwrap().rigid_body_handle],
                        table[source.resource as int].info.attributes.unwrap().fire_points.unwrap()
                            .points@[0],
                        bodies[rb],
                    ),
                )
            } else {
                bodies
            }
        },
    }
}

/// How a successful Add left the world: the entity is stored under a fresh
/// handle, holding its own handle and a fresh physics pair; the collider
/// is parented to the body; the body set gained the template body and the
/// initializer's effect.  Nothing else moved.
pub open spec fn add_effect(
    pre: World,
    post: World,
    entity: Entity,
    post_init: PostInit,
    h: Handle,
    table: Seq<Resource>,
) -> bool {
    let e2 = post.spec_entities()[h];
    let ph = e2.physics.unwrap();
    &&& !pre.spec_entities().contains_key(h)
    &&& post.spec_entities().contains_key(h)
    &&& e2.physics is Some
    &&& e2 == (Entity { entity_holder: Some(h), physics: e2.physics, ..entity })
    &&& post.spec_entities() == pre.spec_entities().insert(h, e2)
    &&& !pre.spec_bodies().contains_key(ph.rigid_body_handle)
    &&& !pre.spec_colliders().contains_key(ph.collider_handle)
    &&& post.spec_colliders() == pre.spec_colliders().insert(
        ph.collider_handle,
        Collider {
            parent: Some(ph.rigid_body_handle),
            group: table[entity.resource as int].info.collider.unwrap().group,
        },
    )
    &&& post.spec_bodies() == post_init_bodies(
        post_init,
        pre.spec_bodies().insert(
            ph.rigid_body_handle,
            table[entity.resource as int].info.rigid_body.unwrap(),
        ),
        e2,
        table,
    )
}

/// The external input one frame hands to the world: the clock, the
/// cursor's world position, key and button states with the bearing toward
/// the cursor, randomness for the spawn gate, and the world extents
/// (screen size times the world multiplier).
#[derive(Clone, Copy, Debug)]
pub struct FrameInput {
    pub now_ms: u64,
    pub cursor: Vec2,
    pub input: InputState,
    pub rand_x: u32,
    pub rand_y: u32,
    pub world_w: i64,
    pub world_h: i64,
}

impl FrameInput {
    /// The bearing is normalized, the cursor and extents are within the
    /// coordinate range.
    pub open spec fn wf(self) -> bool {
        &&& self.input.wf()
        &&& self.cursor.bounded(COORD_LIMIT as int)
        &&& 2 <= self.world_w <= COORD_LIMIT
        &&& 2 <= self.world_h <= COORD_LIMIT
    }
}

/// During the read pass: the body of the entity at `h` (as of `base`) has
/// been wrapped into the world extents.
pub open spec fn body_wrapped_at(base: World, cur: World, frame: FrameInput, h: Handle) -> bool {
    let rb = base.spec_entities()[h].physics.unwrap().rigid_body_handle;
    cur.spec_bodies()[rb] == (RigidBody {
        translation: wrapped_translation(
            base.spec_bodies()[rb].translation,
            frame.world_w as int,
            frame.world_h as int,
        ),
        ..base.spec_bodies()[rb]
    })
}

/// During the read pass: the body of the entity at `h` (as of `base`) is
/// still untouched.
pub open spec fn body_unchanged_at(base: World, cur: World, h: Handle) -> bool {
    let rb = base.spec_entities()[h].physics.unwrap().rigid_body_handle;
    cur.spec_bodies()[rb] == base.spec_bodies()[rb]
}

/// The world: the entity store, the designated player, and the physics
/// sets, owned exclusively for the process lifetime.
pub struct World {
    entities: GenArena<Entity>,
    player: Option<Handle>,
    rigid_body_set: RigidBodySet,
    collider_set: ColliderSet,
    ship: usize,
    bullet: usize,
}

impl World {
    /// The live entities, by handle.
    pub closed spec fn spec_entities(self) -> Map<Handle, Entity> {
        self.entities@
    }

    /// The rigid bodies, by handle.
    pub closed spec fn spec_bodies(self) -> Map<Handle, RigidBody> {
        self.rigid_body_set@
    }

    /// The colliders, by handle.
    pub closed spec fn spec_colliders(self) -> Map<Handle, Collider> {
        self.collider_set@
    }

    /// The designated player entity, if one was set.
    pub closed spec fn spec_player(self) -> Option<Handle> {
        self.player
    }

    /// The template new hostile entities are stamped from.
    pub closed spec fn spec_ship(self) -> usize {
        self.ship
    }

    /// The template projectiles are stamped from.
    pub closed spec fn spec_bullet(self) -> usize {
        self.bullet
    }

    /// The rigid body of the entity at `h`.
    pub open spec fn body_of(self, h: Handle) -> RigidBody {
        self.spec_bodies()[self.spec_entities()[h].physics.unwrap().rigid_body_handle]
    }

    /// The structural invariant: stores are consistent, every body is
    /// within range, every live entity is fully attached, and no two
    /// entities share physics handles.
    pub closed spec fn wf(self) -> bool {
        &&& self.entities.wf()
        &&& self.rigid_body_set.wf()
        &&& self.collider_set.wf()
        &&& all_bodies_wf(self.rigid_body_set)
        &&& forall|h: Handle|
            #[trigger] self.entities@.contains_key(h) ==> linked(
                self.entities@,
                self.rigid_body_set@,
                self.collider_set@,
                h,
            )
        &&& forall|h1: Handle, h2: Handle|
            self.entities@.contains_key(h1) && self.entities@.contains_key(h2) && h1 != h2
                ==> distinct_physics(self.entities@[h1], self.entities@[h2])
    }

    /// Every entity's template index, and the ship and bullet indices, lie
    /// within a table of `n` resources.
    pub closed spec fn resources_ok(self, n: nat) -> bool {
        &&& self.ship < n
        &&& self.bullet < n
        &&& forall|h: Handle|
            #[trigger] self.entities@.contains_key(h) ==> self.entities@[h].resource < n
    }

    /// The entity handles that removals have invalidated, for the process
    /// lifetime.
    pub closed spec fn spec_retired(self) -> Set<Handle> {
        self.entities.spec_retired()
    }

    /// Once removed, a handle stays stale forever: it never resolves to an
    /// entity again, even after its slot is reused by a later insert.
    pub proof fn lemma_removed_stays_stale(self, h: Handle)
        requires
            self.wf(),
            self.spec_retired().contains(h),
        ensures
            !self.spec_entities().contains_key(h),
    {
        self.entities.lemma_retired_never_resolves(h);
    }

    /// Every live entity is fully attached — the store never holds a
    /// half-attached entity.
    pub proof fn lemma_wf_linked(self, h: Handle)
        requires
            self.wf(),
            self.spec_entities().contains_key(h),
        ensures
            linked(self.spec_entities(), self.spec_bodies(), self.spec_colliders(), h),
            self.spec_bodies()[self.spec_entities()[h].physics.unwrap().rigid_body_handle].wf(),
    {
    }

    /// An empty world around the given ship and bullet templates.
    pub fn new(ship: usize, bullet: usize) -> (w: World)
        ensures
            w.wf(),
            w.spec_entities() == Map::<Handle, Entity>::empty(),
            w.spec_bodies() == Map::<Handle, RigidBody>::empty(),
            w.spec_colliders() == Map::<Handle, Collider>::empty(),
            w.spec_player() is None,
            w.spec_ship() == ship,
            w.spec_bullet() == bullet,
            w.spec_retired() == Set::<Handle>::empty(),
    {
        World {
            entities: GenArena::new(),
            player: None,
            rigid_body_set: GenArena::new(),
            collider_set: GenArena::new(),
            ship,
            bullet,
        }
    }

    /// How many entities are live.
    pub closed spec fn spec_entity_count(self) -> nat {
        self.entities.spec_len()
    }

    pub fn entity_count(&self) -> (n: usize)
        ensures
            n == self.spec_entity_count(),
    {
        self.entities.len()
    }

    pub fn get_entity(&self, holder: Handle) -> (r: Option<&Entity>)
        requires
            self.wf(),
        ensures
            match r {
                Some(e) => self.spec_entities().contains_key(holder) && *e
                    == self.spec_entities()[holder],
                None => !self.spec_entities().contains_key(holder),
            },
    {
        self.entities.get(holder)
    }

    /// Evicts a live entity, detaching its physics first.  Calling this on
    /// a handle that is not present is an invariant violation, not a
    /// recoverable condition; it is ruled out here.
    pub fn remove_entity(&mut self, entity_holder: Handle) -> (entity: Entity)
        requires
            old(self).wf(),
            old(self).spec_entities().contains_key(entity_holder),
        ensures
            final(self).wf(),
            entity == old(self).spec_entities()[entity_holder],
            final(self).spec_entities() == old(self).spec_entities().remove(entity_holder),
            final(self).spec_bodies() == old(self).spec_bodies().remove(
                entity.physics.unwrap().rigid_body_handle,
            ),
            final(self).spec_colliders() == old(self).spec_colliders().remove(
                entity.physics.unwrap().collider_handle,
            ),
            final(self).spec_player() == old(self).spec_player(),
            final(self).spec_ship() == old(self).spec_ship(),
            final(self).spec_bullet() == old(self).spec_bullet(),
            final(self).spec_retired() == old(self).spec_retired().insert(entity_holder),
            forall|n: nat| old(self).resources_ok(n) ==> final(self).resources_ok(n),
    {
        let entity = self.entities.remove(entity_holder);
        match &entity.physics {
            Some(ph) => {
                detach(*ph, &mut self.rigid_body_set, &mut self.collider_set);
            },
            None => {
                proof {
                    assert(false);
                }
            },
        }
        proof {
            let pre = *old(self);
            let post = *self;
            let ph = entity.physics.unwrap();
            assert forall|h: Handle| #[trigger] post.entities@.contains_key(h) implies linked(
                post.entities@,
                post.rigid_body_set@,
                post.collider_set@,
                h,
            ) by {
                assert(pre.entities@.contains_key(h));
                assert(linked(pre.entities@, pre.rigid_body_set@, pre.collider_set@, h));
                assert(distinct_physics(pre.entities@[h], pre.entities@[entity_holder]));
            }
        }
        entity
    }
}

/// Attaches a fresh physics pair cloned from the template to the entity
/// record and marks the record with its own handle; fails without touching
/// anything when the template lacks a body or a collider shape.
fn add_entity_property(
    entity: &mut Entity,
    entity_holder: Handle,
    rigid_body_set: &mut RigidBodySet,
    collider_set: &mut ColliderSet,
    resource: &Resource,
) -> (r: Option<()>)
    requires
        old(rigid_body_set).wf(),
        old(collider_set).wf(),
        all_bodies_wf(*old(rigid_body_set)),
        resource.wf(),
    ensures
        final(rigid_body_set).wf(),
        final(collider_set).wf(),
        all_bodies_wf(*final(rigid_body_set)),
        match r {
            Some(_) => {
                let ph = final(entity).physics.unwrap();
                &&& resource.info.rigid_body is Some
                &&& resource.info.collider is Some
                &&& final(entity).physics is Some
                &&& *final(entity) == (Entity {
                    physics: final(entity).physics,
                    entity_holder: Some(entity_holder),
                    ..*old(entity)
                })
                &&& !old(rigid_body_set)@.contains_key(ph.rigid_body_handle)
                &&& !old(collider_set)@.contains_key(ph.collider_handle)
                &&& final(rigid_body_set)@ == old(rigid_body_set)@.insert(
                    ph.rigid_body_handle,
                    resource.info.rigid_body.unwrap(),
                )
                &&& final(collider_set)@ == old(collider_set)@.insert(
                    ph.collider_handle,
                    Collider {
                        parent: Some(ph.rigid_body_handle),
                        group: resource.info.collider.unwrap().group,
                    },
                )
            },
            None => {
                &&& resource.info.rigid_body is None || resource.info.collider is None
                &&& *final(entity) == *old(entity)
                &&& final(rigid_body_set)@ == old(rigid_body_set)@
                &&& final(collider_set)@ == old(collider_set)@
            },
        },
{
    match attach(resource, rigid_body_set, collider_set) {
        Some(ph) => {
            entity.physics = Some(ph);
            entity.entity_holder = Some(entity_holder);
            Some(())
        },
        None => None,
    }
}

/// Runs a one-shot initializer on the freshly attached target entity.
fn run_post_init(
    target: &Entity,
    init: PostInit,
    rigid_body_set: &mut RigidBodySet,
    table: &ResourceTable,
)
    requires
        old(rigid_body_set).wf(),
        all_bodies_wf(*old(rigid_body_set)),
        table_wf(table@),
        match init {
            PostInit::ProjectileFrom { source } => source.resource < table@.len(),
            _ => true,
        },
        match init {
            PostInit::PlaceAt { pos } => pos.bounded(COORD_LIMIT as int),
            _ => true,
        },
    ensures
        final(rigid_body_set).wf(),
        all_bodies_wf(*final(rigid_body_set)),
        final(rigid_body_set)@ == post_init_bodies(init, old(rigid_body_set)@, *target, table@),
{
    match init {
        PostInit::Noop => {
        },
        PostInit::PlaceAt { pos } => {
            match &target.physics {
                Some(ph) => {
                    let handle = ph.rigid_body_handle;
                    match rigid_body_set.get(handle) {
                        Some(b) => {
                            let placed = RigidBody {
                                translation: pos,
                                rotation: Rotation2::identity(),
                                linvel: b.linvel,
                                angvel: b.angvel,
                            };
                            rigid_body_set.update(handle, placed);
                        },
                        None => {
                        },
                    }
                },
                None => {
                },
            }
        },
        PostInit::ProjectileFrom { source } => {
            let _ = set_projectile_physics(target, source, rigid_body_set, table);
        },
    }
}

impl World {
    /// Inserts an entity, attaches its physics, and runs the initializer
    /// with the live handles.  When the template lacks a physics shape the
    /// just-inserted store entry is rolled back: the world is left exactly
    /// as it was, with no half-constructed entity.
    pub fn add_entity(&mut self, entity: Entity, post_init: PostInit, table: &ResourceTable) -> (r:
        Option<Handle>)
        requires
            old(self).wf(),
            table_wf(table@),
            old(self).resources_ok(table@.len()),
            entity.resource < table@.len(),
            post_init.wf(table@.len()),
        ensures
            final(self).wf(),
            final(self).resources_ok(table@.len()),
            final(self).spec_player() == old(self).spec_player(),
            final(self).spec_ship() == old(self).spec_ship(),
            final(self).spec_bullet() == old(self).spec_bullet(),
            forall|h2: Handle|
                old(self).spec_retired().contains(h2) ==> final(self).spec_retired().contains(h2),
            match r {
                None => {
                    &&& table@[entity.resource as int].info.rigid_body is None
                        || table@[entity.resource as int].info.collider is None
                    &&& final(self).spec_entities() == old(self).spec_entities()
                    &&& final(self).spec_bodies() == old(self).spec_bodies()
                    &&& final(self).spec_colliders() == old(self).spec_colliders()
                },
                Some(h) => {
                    &&& table@[entity.resource as int].info.rigid_body is Some
                    &&& table@[entity.resource as int].info.collider is Some
                    &&& !old(self).spec_retired().contains(h)
                    &&& final(self).spec_retired() == old(self).spec_retired()
                    &&& add_effect(*old(self), *final(self), entity, post_init, h, table@)
                },
            },
    {
        let entity_holder = self.entities.insert(entity);
        let mut e = entity;
        let attached = add_entity_property(
            &mut e,
            entity_holder,
            &mut self.rigid_body_set,
            &mut self.collider_set,
            &table[entity.resource],
        );
        match attached {
            None => {
                let _ = self.entities.remove(entity_holder);
                proof {
                    assert(self.entities@ =~= old(self).entities@);
                }
                return None;
            },
            Some(_) => {
            },
        }
        self.entities.update(entity_holder, e);
        run_post_init(&e, post_init, &mut self.rigid_body_set, table);
        proof {
            let pre = *old(self);
            let post = *self;
            let ph = e.physics.unwrap();
            let bodies2 = pre.rigid_body_set@.insert(
                ph.rigid_body_handle,
                table@[entity.resource as int].info.rigid_body.unwrap(),
            );
            assert(post.rigid_body_set@ == post_init_bodies(post_init, bodies2, e, table@));
            assert(post.entities@ =~= pre.entities@.insert(entity_holder, e));
            assert forall|k: Handle| #[trigger]
                bodies2.contains_key(k) implies post.rigid_body_set@.contains_key(k) by {
            }
            assert forall|h2: Handle| #[trigger] post.entities@.contains_key(h2) implies linked(
                post.entities@,
                post.rigid_body_set@,
                post.collider_set@,
                h2,
            ) by {
                if h2 == entity_holder {
                    assert(bodies2.contains_key(ph.rigid_body_handle));
                } else {
                    assert(pre.entities@.contains_key(h2));
                    assert(linked(pre.entities@, pre.rigid_body_set@, pre.collider_set@, h2));
                    assert(bodies2.contains_key(
                        pre.entities@[h2].physics.unwrap().rigid_body_handle,
                    ));
                }
            }
            assert forall|h1: Handle, h2: Handle|
                post.entities@.contains_key(h1) && post.entities@.contains_key(h2) && h1
                    != h2 implies distinct_physics(post.entities@[h1], post.entities@[h2]) by {
                if h1 == entity_holder {
                    assert(linked(pre.entities@, pre.rigid_body_set@, pre.collider_set@, h2));
                } else if h2 == entity_holder {
                    assert(linked(pre.entities@, pre.rigid_body_set@, pre.collider_set@, h1));
                } else {
                    assert(distinct_physics(pre.entities@[h1], pre.entities@[h2]));
                }
            }
        }
        Some(entity_holder)
    }
}

/// Frame rule: replacing one entity's record, with its physics pair,
/// holder and template unchanged, preserves the world invariant.
proof fn lemma_wf_entity_field_update(pre: World, post: World, h: Handle, e2: Entity)
    requires
        pre.wf(),
        pre.spec_entities().contains_key(h),
        e2.physics == pre.spec_entities()[h].physics,
        e2.entity_holder == pre.spec_entities()[h].entity_holder,
        e2.resource == pre.spec_entities()[h].resource,
        post.spec_entities() == pre.spec_entities().insert(h, e2),
        post.spec_bodies() == pre.spec_bodies(),
        post.spec_colliders() == pre.spec_colliders(),
        post.entities.wf(),
        post.rigid_body_set == pre.rigid_body_set,
        post.collider_set == pre.collider_set,
    ensures
        post.wf(),
        forall|n: nat| pre.resources_ok(n) && post.ship == pre.ship && post.bullet == pre.bullet
            ==> post.resources_ok(n),
{
    assert forall|h2: Handle| #[trigger] post.entities@.contains_key(h2) implies linked(
        post.entities@,
        post.rigid_body_set@,
        post.collider_set@,
        h2,
    ) by {
        assert(pre.entities@.contains_key(h2));
        assert(linked(pre.entities@, pre.rigid_body_set@, pre.collider_set@, h2));
    }
    assert forall|h1: Handle, h2: Handle|
        post.entities@.contains_key(h1) && post.entities@.contains_key(h2) && h1
            != h2 implies distinct_physics(post.entities@[h1], post.entities@[h2]) by {
        assert(distinct_physics(pre.entities@[h1], pre.entities@[h2]));
    }
    assert forall|n: nat|
        pre.resources_ok(n) && post.ship == pre.ship && post.bullet
            == pre.bullet implies post.resources_ok(n) by {
        assert forall|h2: Handle| #[trigger]
            post.entities@.contains_key(h2) implies post.entities@[h2].resource < n by {
            assert(pre.entities@.contains_key(h2));
        }
    }
}

/// Frame rule: replacing one body that stays well-formed preserves the
/// world invariant.
proof fn lemma_wf_body_update(pre: World, post: World, rb: Handle, b2: RigidBody)
    requires
        pre.wf(),
        pre.spec_bodies().contains_key(rb),
        b2.wf(),
        post.spec_bodies() == pre.spec_bodies().insert(rb, b2),
        post.entities == pre.entities,
        post.collider_set == pre.collider_set,
        post.rigid_body_set.wf(),
        post.ship == pre.ship,
        post.bullet == pre.bullet,
    ensures
        post.wf(),
        forall|n: nat| pre.resources_ok(n) ==> post.resources_ok(n),
{
    assert forall|h2: Handle| #[trigger] post.entities@.contains_key(h2) implies linked(
        post.entities@,
        post.rigid_body_set@,
        post.collider_set@,
        h2,
    ) by {
        assert(linked(pre.entities@, pre.rigid_body_set@, pre.collider_set@, h2));
    }
    assert forall|h1: Handle, h2: Handle|
        post.entities@.contains_key(h1) && post.entities@.contains_key(h2) && h1
            != h2 implies distinct_physics(post.entities@[h1], post.entities@[h2]) by {
        assert(distinct_physics(pre.entities@[h1], pre.entities@[h2]));
    }
}

impl World {
    /// Applies one deferred mutation.  Removing a handle that is not live
    /// would be a fatal invariant violation and is ruled out here.
    pub fn handle_mutator(&mut self, world_mutator: WorldMutator, table: &ResourceTable) -> (r:
        Option<Handle>)
        requires
            old(self).wf(),
            table_wf(table@),
            old(self).resources_ok(table@.len()),
            world_mutator.wf(table@.len()),
            world_mutator matches WorldMutator::Remove(h) ==> old(
                self,
            ).spec_entities().contains_key(h),
        ensures
            final(self).wf(),
            final(self).resources_ok(table@.len()),
            final(self).spec_player() == old(self).spec_player(),
            final(self).spec_ship() == old(self).spec_ship(),
            final(self).spec_bullet() == old(self).spec_bullet(),
            match world_mutator {
                WorldMutator::Remove(h) => {
                    let e = old(self).spec_entities()[h];
                    &&& r is None
                    &&& final(self).spec_entities() == old(self).spec_entities().remove(h)
                    &&& final(self).spec_bodies() == old(self).spec_bodies().remove(
                        e.physics.unwrap().rigid_body_handle,
                    )
                    &&& final(self).spec_colliders() == old(self).spec_colliders().remove(
                        e.physics.unwrap().collider_handle,
                    )
                },
                WorldMutator::Add(e, post_init) => match r {
                    None => {
                        &&& table@[e.resource as int].info.rigid_body is None
                            || table@[e.resource as int].info.collider is None
                        &&& final(self).spec_entities() == old(self).spec_entities()
                        &&& final(self).spec_bodies() == old(self).spec_bodies()
                        &&& final(self).spec_colliders() == old(self).spec_colliders()
                    },
                    Some(h) => {
                        &&& table@[e.resource as int].info.rigid_body is Some
                        &&& table@[e.resource as int].info.collider is Some
                        &&& add_effect(*old(self), *final(self), e, post_init, h, table@)
                    },
                },
            },
    {
        match world_mutator {
            WorldMutator::Remove(entity_holder) => {
                let _ = self.remove_entity(entity_holder);
                None
            },
            WorldMutator::Add(entity, post_init) => self.add_entity(entity, post_init, table),
        }
    }

    /// Applies the mutation and designates its result — for an Add, the
    /// new entity — as the player.
    pub fn set_player(&mut self, world_mutator: WorldMutator, table: &ResourceTable) -> (r: Option<
        (),
    >)
        requires
            old(self).wf(),
            table_wf(table@),
            old(self).resources_ok(table@.len()),
            world_mutator.wf(table@.len()),
            world_mutator matches WorldMutator::Remove(h) ==> old(
                self,
            ).spec_entities().contains_key(h),
        ensures
            final(self).wf(),
            final(self).resources_ok(table@.len()),
            final(self).spec_ship() == old(self).spec_ship(),
            final(self).spec_bullet() == old(self).spec_bullet(),
            r is Some,
            match world_mutator {
                WorldMutator::Remove(h) => {
                    let e = old(self).spec_entities()[h];
                    &&& final(self).spec_player() is None
                    &&& final(self).spec_entities() == old(self).spec_entities().remove(h)
                    &&& final(self).spec_bodies() == old(self).spec_bodies().remove(
                        e.physics.unwrap().rigid_body_handle,
                    )
                    &&& final(self).spec_colliders() == old(self).spec_colliders().remove(
                        e.physics.unwrap().collider_handle,
                    )
                },
                WorldMutator::Add(e, post_init) => match final(self).spec_player() {
                    None => {
                        &&& table@[e.resource as int].info.rigid_body is None
                            || table@[e.resource as int].info.collider is None
                        &&& final(self).spec_entities() == old(self).spec_entities()
                        &&& final(self).spec_bodies() == old(self).spec_bodies()
                        &&& final(self).spec_colliders() == old(self).spec_colliders()
                    },
                    Some(h) => {
                        &&& table@[e.resource as int].info.rigid_body is Some
                        &&& table@[e.resource as int].info.collider is Some
                        &&& add_effect(*old(self), *final(self), e, post_init, h, table@)
                    },
                },
            },
    {
        let p = self.handle_mutator(world_mutator, table);
        self.player = p;
        Some(())
    }

    /// Refreshes the player's aim position from the cursor's world
    /// position.  A stale player handle or a playerless entity makes this
    /// a silent no-op.
    pub fn mouse(&mut self, player: Handle, cursor: Vec2) -> (r: Option<()>)
        requires
            old(self).wf(),
        ensures
            final(self).wf(),
            final(self).spec_bodies() == old(self).spec_bodies(),
            final(self).spec_colliders() == old(self).spec_colliders(),
            final(self).spec_player() == old(self).spec_player(),
            final(self).spec_ship() == old(self).spec_ship(),
            final(self).spec_bullet() == old(self).spec_bullet(),
            forall|n: nat| old(self).resources_ok(n) ==> final(self).resources_ok(n),
            if old(self).spec_entities().contains_key(player) && old(
                self,
            ).spec_entities()[player].player is Some {
                let e = old(self).spec_entities()[player];
                &&& r is Some
                &&& final(self).spec_entities() == old(self).spec_entities().insert(
                    player,
                    (Entity {
                        player: Some(
                            Player {
                                mouse_info: MouseInfo { pos: cursor },
                                last_fire_time: e.player.unwrap().last_fire_time,
                            },
                        ),
                        ..e
                    }),
                )
            } else {
                &&& r is None
                &&& final(self).spec_entities() == old(self).spec_entities()
            },
    {
        let e = match self.entities.get(player) {
            Some(e) => *e,
            None => {
                return None;
            },
        };
        let p = match &e.player {
            Some(p) => *p,
            None => {
                return None;
            },
        };
        let e2 = Entity {
            player: Some(
                Player { mouse_info: MouseInfo { pos: cursor }, last_fire_time: p.last_fire_time },
            ),
            ..e
        };
        self.entities.update(player, e2);
        proof {
            lemma_wf_entity_field_update(*old(self), *self, player, e2);
        }
        Some(())
    }

    /// The camera target: the player entity's current live position, read
    /// fresh from its body.
    pub fn camera(&self, player: Handle) -> (r: Option<Vec2>)
        requires
            self.wf(),
        ensures
            match r {
                Some(pos) => self.spec_entities().contains_key(player) && pos == self.body_of(
                    player,
                ).translation,
                None => !self.spec_entities().contains_key(player),
            },
    {
        let e = match self.entities.get(player) {
            Some(e) => *e,
            None => {
                return None;
            },
        };
        match e.pos(&self.rigid_body_set) {
            Some(p) => Some(p),
            None => {
                proof {
                    assert(false);
                }
                None
            },
        }
    }

    /// Runs the control law on the player's body: aiming command, thrust
    /// and brake.
    pub fn input(&mut self, player: Handle, input: &InputState) -> (r: Option<()>)
        requires
            old(self).wf(),
            input.wf(),
        ensures
            final(self).wf(),
            final(self).spec_entities() == old(self).spec_entities(),
            final(self).spec_colliders() == old(self).spec_colliders(),
            final(self).spec_player() == old(self).spec_player(),
            final(self).spec_ship() == old(self).spec_ship(),
            final(self).spec_bullet() == old(self).spec_bullet(),
            forall|n: nat| old(self).resources_ok(n) ==> final(self).resources_ok(n),
            if old(self).spec_entities().contains_key(player) {
                let e = old(self).spec_entities()[player];
                let rb = e.physics.unwrap().rigid_body_handle;
                &&& r is Some
                &&& final(self).spec_bodies() == old(self).spec_bodies().insert(
                    rb,
                    controlled_body(old(self).spec_bodies()[rb], e.player is Some, *input),
                )
            } else {
                &&& r is None
                &&& final(self).spec_bodies() == old(self).spec_bodies()
            },
    {
        let e = match self.entities.get(player) {
            Some(e) => *e,
            None => {
                return None;
            },
        };
        let rb = match &e.physics {
            Some(ph) => ph.rigid_body_handle,
            None => {
                proof {
                    assert(false);
                }
                return None;
            },
        };
        let mut body = match self.rigid_body_set.get(rb) {
            Some(b) => *b,
            None => {
                proof {
                    assert(false);
                }
                return None;
            },
        };
        let _ = e.update_input(&mut body, input);
        self.rigid_body_set.update(rb, body);
        proof {
            lemma_wf_body_update(*old(self), *self, rb, body);
        }
        Some(())
    }

    /// The fire gate on the player entity; a successful shot updates the
    /// timestamp and yields exactly one projectile Add mutation.
    pub fn fire(&mut self, player: Handle, now: u64, fire_down: bool) -> (r: Option<WorldMutator>)
        requires
            old(self).wf(),
        ensures
            final(self).wf(),
            final(self).spec_bodies() == old(self).spec_bodies(),
            final(self).spec_colliders() == old(self).spec_colliders(),
            final(self).spec_player() == old(self).spec_player(),
            final(self).spec_ship() == old(self).spec_ship(),
            final(self).spec_bullet() == old(self).spec_bullet(),
            forall|n: nat| old(self).resources_ok(n) ==> final(self).resources_ok(n),
            ({
                let e = old(self).spec_entities()[player];
                if old(self).spec_entities().contains_key(player) && e.fire_gate(now, fire_down) {
                    let e2 = Entity {
                        player: Some(
                            Player {
                                mouse_info: e.player.unwrap().mouse_info,
                                last_fire_time: now,
                            },
                        ),
                        ..e
                    };
                    &&& final(self).spec_entities() == old(self).spec_entities().insert(player, e2)
                    &&& r == Some(
                        WorldMutator::Add(
                            projectile_entity(
                                old(self).spec_bullet(),
                                player,
                                now,
                                PROJECTILE_LIFETIME_MS,
                            ),
                            PostInit::ProjectileFrom { source: e2 },
                        ),
                    )
                } else {
                    &&& final(self).spec_entities() == old(self).spec_entities()
                    &&& r is None
                }
            }),
    {
        let e0 = match self.entities.get(player) {
            Some(e) => *e,
            None => {
                return None;
            },
        };
        let mut e = e0;
        let m = e.update_fire(player, now, fire_down, self.bullet);
        self.entities.update(player, e);
        proof {
            lemma_wf_entity_field_update(*old(self), *self, player, e);
            if !e0.fire_gate(now, fire_down) {
                assert(self.entities@ =~= old(self).entities@);
            }
        }
        m
    }

    /// One frame of the world: player control, the fire gate, the
    /// periodic spawn gate, the read pass (wrap and expiry), the deferred
    /// mutations in enqueue order, and finally the camera target.
    ///
    /// The mutation order within the frame is: the fire Add, then the
    /// spawn Adds, then the Removes collected by the read pass.  No entity
    /// is added to or removed from the store during the read pass itself.
    pub fn update(&mut self, table: &ResourceTable, frame: &FrameInput) -> (r: Option<Vec2>)
        requires
            old(self).wf(),
            table_wf(table@),
            old(self).resources_ok(table@.len()),
            frame.wf(),
        ensures
            final(self).wf(),
            final(self).resources_ok(table@.len()),
            final(self).spec_ship() == old(self).spec_ship(),
            final(self).spec_bullet() == old(self).spec_bullet(),
            final(self).spec_player() == old(self).spec_player(),
            old(self).spec_player() is None ==> {
                &&& r is None
                &&& final(self).spec_entities() == old(self).spec_entities()
                &&& final(self).spec_bodies() == old(self).spec_bodies()
                &&& final(self).spec_colliders() == old(self).spec_colliders()
            },
            old(self).spec_player() matches Some(p) ==> {
                let now = frame.now_ms;
                let pre = *old(self);
                let post = *final(self);
                // an entity lives on exactly until its projectile expires
                &&& forall|h: Handle| #[trigger]
                    pre.spec_entities().contains_key(h) ==> (post.spec_entities().contains_key(h)
                        <==> !pre.spec_entities()[h].expired(now))
                // survivors other than the player keep their records
                &&& forall|h: Handle| #[trigger]
                    pre.spec_entities().contains_key(h) && !pre.spec_entities()[h].expired(now)
                        && h != p ==> post.spec_entities()[h] == pre.spec_entities()[h]
                // every survivor's body sits at the wrapped translation
                &&& forall|h: Handle| #[trigger]
                    pre.spec_entities().contains_key(h) && !pre.spec_entities()[h].expired(now)
                        ==> {
                        let rb = pre.spec_entities()[h].physics.unwrap().rigid_body_handle;
                        &&& post.spec_bodies().contains_key(rb)
                        &&& post.spec_bodies()[rb].translation == wrapped_translation(
                            pre.spec_bodies()[rb].translation,
                            frame.world_w as int,
                            frame.world_h as int,
                        )
                    }
                // the player's aim follows the cursor; the fire gate updates
                // the timestamp exactly when it lets a shot through
                &&& (pre.spec_entities().contains_key(p) && pre.spec_entities()[p].player is Some
                    && !pre.spec_entities()[p].expired(now)) ==> {
                    let pl = pre.spec_entities()[p].player.unwrap();
                    let fired = frame.input.fire && now > pl.last_fire_time + FIRE_COOLDOWN_MS;
                    post.spec_entities()[p].player == Some(
                        Player {
                            mouse_info: MouseInfo { pos: frame.cursor },
                            last_fire_time: if fired {
                                now
                            } else {
                                pl.last_fire_time
                            },
                        },
                    )
                }
                // a shot the cooldown let through put a projectile in the
                // store, its body stamped from the firer's post-wrap state
                // when the firer's template names a fire point
                &&& (pre.spec_entities().contains_key(p) && pre.spec_entities()[p].fire_gate(
                    now,
                    frame.input.fire,
                ) && table@[pre.spec_bullet() as int].info.rigid_body is Some
                    && table@[pre.spec_bullet() as int].info.collider is Some) ==> exists|
                    hb: Handle,
                |
                    {
                        let prb = pre.spec_entities()[p].physics.unwrap().rigid_body_handle;
                        let src1 = controlled_body(pre.spec_bodies()[prb], true, frame.input);
                        let src = RigidBody {
                            translation: wrapped_translation(
                                src1.translation,
                                frame.world_w as int,
                                frame.world_h as int,
                            ),
                            ..src1
                        };
                        let bullet_template =
                            table@[pre.spec_bullet() as int].info.rigid_body.unwrap();
                        let attrs = table@[pre.spec_entities()[p].resource as int].info.attributes;
                        &&& !pre.spec_entities().contains_key(hb)
                        &&& #[trigger] post.spec_entities().contains_key(hb)
                        &&& post.spec_entities()[hb].projectile == Some(
                            Projectile {
                                source: p,
                                fired_time: now,
                                lifetime: PROJECTILE_LIFETIME_MS,
                            },
                        )
                        &&& post.body_of(hb) == (if attrs is Some && attrs.unwrap().fire_points
                            is Some && attrs.unwrap().fire_points.unwrap().points@.len() > 0 {
                            projectile_body(
                                src,
                                attrs.unwrap().fire_points.unwrap().points@[0],
                                bullet_template,
                            )
                        } else {
                            bullet_template
                        })
                    }
                // an open spawn window put one hostile in the store, at the
                // position the random values name
                &&& (now % 1000 <= 100 && table@[pre.spec_ship() as int].info.rigid_body is Some
                    && table@[pre.spec_ship() as int].info.collider is Some) ==> exists|he: Handle|
                    {
                        &&& !pre.spec_entities().contains_key(he)
                        &&& #[trigger] post.spec_entities().contains_key(he)
                        &&& post.spec_entities()[he].resource == pre.spec_ship()
                        &&& post.spec_entities()[he].drawable == Some(
                            Drawable { resource: pre.spec_ship() },
                        )
                        &&& post.spec_entities()[he].player is None
                        &&& post.spec_entities()[he].projectile is None
                        &&& post.body_of(he).translation == (Vec2 {
                            x: place_coord_spec(
                                frame.rand_x,
                                -(frame.world_w / 2) as int,
                                (frame.world_w / 2) as int,
                            ) as i64,
                            y: place_coord_spec(
                                frame.rand_y,
                                -(frame.world_h / 2) as int,
                                (frame.world_h / 2) as int,
                            ) as i64,
                        })
                    }
                // and nothing else appears: every new entity is the shot or
                // the hostile this frame's gates let through
                &&& forall|h: Handle|
                    !pre.spec_entities().contains_key(h)
                        && #[trigger] post.spec_entities().contains_key(h) ==> {
                        ||| {
                            &&& pre.spec_entities().contains_key(p)
                            &&& pre.spec_entities()[p].fire_gate(now, frame.input.fire)
                            &&& post.spec_entities()[h].projectile == Some(
                                Projectile {
                                    source: p,
                                    fired_time: now,
                                    lifetime: PROJECTILE_LIFETIME_MS,
                                },
                            )
                        }
                        ||| {
                            &&& now % 1000 <= 100
                            &&& post.spec_entities()[h] == (Entity {
                                entity_holder: Some(h),
                                physics: post.spec_entities()[h].physics,
                                ..World::enemy_entity(pre.spec_ship())
                            })
                        }
                    }
                // and at most one of each: two new entities of the same
                // kind (projectile or not) are the same entity, so an open
                // fire gate adds exactly one projectile and an open spawn
                // window exactly one hostile
                &&& forall|h1: Handle, h2: Handle|
                    !pre.spec_entities().contains_key(h1)
                        && #[trigger] post.spec_entities().contains_key(h1)
                        && !pre.spec_entities().contains_key(h2)
                        && #[trigger] post.spec_entities().contains_key(h2) && (
                    post.spec_entities()[h1].projectile is Some) == (
                    post.spec_entities()[h2].projectile is Some) ==> h1 == h2
                // the camera target is the player's live position, read fresh
                &&& r == (if post.spec_entities().contains_key(p) {
                    Some(post.body_of(p).translation)
                } else {
                    Option::<Vec2>::None
                })
            },
    {
        let player = match self.player {
            None => {
                return None;
            },
            Some(p) => p,
        };
        let now = frame.now_ms;

        // step 1-2: input and player control
        let _ = self.mouse(player, frame.cursor);
        let _ = self.input(player, &frame.input);

        // step 3: the fire gate may enqueue a projectile Add
        let fire_mutation = self.fire(player, now, frame.input.fire);

        // step 4: the periodic spawn gate may enqueue an enemy Add
        let spawn_mutations = if now % 1000 <= 100 {
            self.spawn_enemy(frame.rand_x, frame.rand_y, frame.world_w, frame.world_h)
        } else {
            None
        };

        let ghost w3 = *self;

        // step 5: single read pass — wrap every body, collect expired
        // projectiles; the store is not touched
        let handles = self.entities.handles();
        let mut to_remove: Vec<Handle> = Vec::new();
        let mut i: usize = 0;
        while i < handles.len()
            invariant
                self.wf(),
                self.resources_ok(table@.len()),
                frame.wf(),
                i <= handles@.len(),
                self.spec_entities() == w3.spec_entities(),
                self.spec_colliders() == w3.spec_colliders(),
                self.spec_player() == w3.spec_player(),
                self.spec_ship() == w3.spec_ship(),
                self.spec_bullet() == w3.spec_bullet(),
                w3.wf(),
                forall|k: int|
                    0 <= k < handles@.len() ==> w3.spec_entities().contains_key(
                        #[trigger] handles@[k],
                    ),
                forall|h: Handle| w3.spec_entities().contains_key(h) ==> handles@.contains(h),
                forall|k: int, l: int|
                    0 <= k < l < handles@.len() ==> handles@[k] != handles@[l],
                forall|k: Handle| #[trigger]
                    self.spec_bodies().contains_key(k) == w3.spec_bodies().contains_key(k),
                forall|j: int|
                    0 <= j < i ==> body_wrapped_at(w3, *self, *frame, #[trigger] handles@[j]),
                forall|j: int|
                    i <= j < handles@.len() ==> body_unchanged_at(
                        w3,
                        *self,
                        #[trigger] handles@[j],
                    ),
                forall|k: int|
                    0 <= k < to_remove@.len() ==> w3.spec_entities().contains_key(
                        #[trigger] to_remove@[k],
                    ) && w3.spec_entities()[to_remove@[k]].expired(now),
                forall|k: int|
                    0 <= k < to_remove@.len() ==> exists|j: int|
                        0 <= j < i && #[trigger] to_remove@[k] == handles@[j],
                forall|k: int, l: int|
                    0 <= k < l < to_remove@.len() ==> to_remove@[k] != to_remove@[l],
                forall|j: int|
                    0 <= j < i && w3.spec_entities()[#[trigger] handles@[j]].expired(now)
                        ==> to_remove@.contains(handles@[j]),
            decreases handles@.len() - i,
        {
            let h = handles[i];
            let e = match self.entities.get(h) {
                Some(e) => *e,
                None => {
                    proof {
                        assert(false);
                    }
                    return None;
                },
            };
            let ghost pre_iter = *self;
            let _ = e.update_entity_position(&mut self.rigid_body_set, frame.world_w, frame.world_h);
            proof {
                let rb = e.physics.unwrap().rigid_body_handle;
                lemma_wf_body_update(pre_iter, *self, rb, self.spec_bodies()[rb]);
                assert(body_unchanged_at(w3, pre_iter, handles@[i as int]));
                assert forall|j: int|
                    0 <= j < i + 1 implies body_wrapped_at(
                    w3,
                    *self,
                    *frame,
                    #[trigger] handles@[j],
                ) by {
                    if j < i {
                        assert(handles@[j] != handles@[i as int]);
                        assert(distinct_physics(
                            w3.spec_entities()[handles@[j]],
                            w3.spec_entities()[handles@[i as int]],
                        ));
                        assert(body_wrapped_at(w3, pre_iter, *frame, handles@[j]));
                    }
                }
                assert forall|j: int|
                    i + 1 <= j < handles@.len() implies body_unchanged_at(
                    w3,
                    *self,
                    #[trigger] handles@[j],
                ) by {
                    assert(handles@[j] != handles@[i as int]);
                    assert(distinct_physics(
                        w3.spec_entities()[handles@[j]],
                        w3.spec_entities()[handles@[i as int]],
                    ));
                    assert(body_unchanged_at(w3, pre_iter, handles@[j]));
                }
            }
            match e.update_projectile(now) {
                Some(m) => match m {
                    WorldMutator::Remove(hh) => {
                        let ghost tr0 = to_remove@;
                        to_remove.push(hh);
                        proof {
                            assert(hh == h);
                            assert forall|k: int|
                                0 <= k < to_remove@.len() implies exists|j: int|
                                0 <= j < i + 1 && #[trigger] to_remove@[k] == handles@[j] by {
                                if k < tr0.len() {
                                    let j = choose|j: int|
                                        0 <= j < i && #[trigger] tr0[k] == handles@[j];
                                    assert(to_remove@[k] == handles@[j]);
                                } else {
                                    assert(to_remove@[k] == handles@[i as int]);
                                }
                            }
                            assert forall|k: int, l: int|
                                0 <= k < l < to_remove@.len() implies to_remove@[k]
                                != to_remove@[l] by {
                                if l == to_remove@.len() - 1 {
                                    let j = choose|j: int|
                                        0 <= j < i && #[trigger] tr0[k] == handles@[j];
                                    assert(to_remove@[l] == handles@[i as int]);
                                    assert(handles@[j] != handles@[i as int]);
                                }
                            }
                            assert forall|j: int|
                                0 <= j < i + 1 && w3.spec_entities()[#[trigger] handles@[j]].expired(
                                    now,
                                ) implies to_remove@.contains(handles@[j]) by {
                                if j < i {
                                    assert(tr0.contains(handles@[j]));
                                    let k = choose|k: int|
                                        0 <= k < tr0.len() && tr0[k] == handles@[j];
                                    assert(to_remove@[k] == handles@[j]);
                                } else {
                                    assert(to_remove@[to_remove@.len() - 1] == handles@[j]);
                                }
                            }
                        }
                    },
                    WorldMutator::Add(..) => {
                        proof {
                            assert(false);
                        }
                    },
                },
                None => {
                    proof {
                        assert forall|j: int|
                            0 <= j < i + 1 && w3.spec_entities()[#[trigger] handles@[j]].expired(
                                now,
                            ) implies to_remove@.contains(handles@[j]) by {
                            if j < i {
                            } else {
                                assert(!e.expired(now) || e.entity_holder is None);
                            }
                        }
                    }
                },
            }
            i = i + 1;
        }

        let ghost w4 = *self;

        // step 6: apply the deferred mutations in enqueue order — the
        // fire Add, the spawn Adds, then the collected Removes
        let mut fire_handle: Option<Handle> = None;
        match fire_mutation {
            Some(m) => {
                fire_handle = self.handle_mutator(m, table);
            },
            None => {
            },
        }
        let mut spawn_handle: Option<Handle> = None;
        match spawn_mutations {
            Some(ms) => {
                proof {
                    crate::math::lemma_place_coord_in_range(
                        frame.rand_x,
                        -(frame.world_w as int / 2),
                        frame.world_w as int / 2,
                    );
                    crate::math::lemma_place_coord_in_range(
                        frame.rand_y,
                        -(frame.world_h as int / 2),
                        frame.world_h as int / 2,
                    );
                }
                spawn_handle = self.handle_mutator(ms[0], table);
            },
            None => {
            },
        }

        let ghost w6 = *self;

        let mut k: usize = 0;
        while k < to_remove.len()
            invariant
                self.wf(),
                self.resources_ok(table@.len()),
                k <= to_remove@.len(),
                self.spec_player() == w6.spec_player(),
                self.spec_ship() == w6.spec_ship(),
                self.spec_bullet() == w6.spec_bullet(),
                w6.wf(),
                forall|l: int|
                    0 <= l < to_remove@.len() ==> w6.spec_entities().contains_key(
                        #[trigger] to_remove@[l],
                    ),
                forall|l: int, m: int|
                    0 <= l < m < to_remove@.len() ==> to_remove@[l] != to_remove@[m],
                forall|h: Handle| #[trigger]
                    self.spec_entities().contains_key(h) == (w6.spec_entities().contains_key(h)
                        && !(exists|l: int| 0 <= l < k && #[trigger] to_remove@[l] == h)),
                forall|h: Handle| #[trigger]
                    self.spec_entities().contains_key(h) ==> self.spec_entities()[h]
                        == w6.spec_entities()[h],
                forall|h: Handle| #[trigger]
                    self.spec_entities().contains_key(h) ==> {
                        let rb = self.spec_entities()[h].physics.unwrap().rigid_body_handle;
                        self.spec_bodies().contains_key(rb) && self.spec_bodies()[rb]
                            == w6.spec_bodies()[rb]
                    },
            decreases to_remove@.len() - k,
        {
            let h = to_remove[k];
            proof {
                assert(self.spec_entities().contains_key(h));
            }
            let ghost pre_remove = *self;
            let removed = self.remove_entity(h);
            proof {
                assert forall|h2: Handle| #[trigger]
                    self.spec_entities().contains_key(h2) implies {
                    let rb = self.spec_entities()[h2].physics.unwrap().rigid_body_handle;
                    self.spec_bodies().contains_key(rb) && self.spec_bodies()[rb]
                        == w6.spec_bodies()[rb]
                } by {
                    assert(pre_remove.spec_entities().contains_key(h2));
                    assert(distinct_physics(
                        pre_remove.spec_entities()[h2],
                        pre_remove.spec_entities()[h],
                    ));
                }
            }
            k = k + 1;
        }

        // step 7: the camera follows the player's current live position
        let r = self.camera(player);
        proof {
            let pre = *old(self);
            let e0 = pre.spec_entities();
            let e3 = w3.spec_entities();
            let e6 = w6.spec_entities();
            // the control and fire phases touch the player record's player
            // state only, and no other record at all
            assert forall|h: Handle| #[trigger] e0.contains_key(h) implies {
                &&& e3.contains_key(h)
                &&& e3[h].projectile == e0[h].projectile
                &&& e3[h].physics == e0[h].physics
                &&& e3[h].resource == e0[h].resource
                &&& (h != player ==> e3[h] == e0[h])
            } by {}
            assert(forall|h: Handle| #[trigger] e3.contains_key(h) ==> e0.contains_key(h));
            // the Adds insert only fresh handles and fresh bodies
            assert forall|h: Handle| #[trigger] e3.contains_key(h) implies {
                &&& e6.contains_key(h)
                &&& e6[h] == e3[h]
            } by {}
            assert forall|h: Handle| #[trigger] e3.contains_key(h) implies {
                let rb = e3[h].physics.unwrap().rigid_body_handle;
                &&& w6.spec_bodies().contains_key(rb)
                &&& w6.spec_bodies()[rb] == w4.spec_bodies()[rb]
            } by {
                assert(w4.spec_entities().contains_key(h));
                assert(linked(
                    w4.spec_entities(),
                    w4.spec_bodies(),
                    w4.spec_colliders(),
                    h,
                ));
            }
            // the read pass wrapped exactly the bodies of the live entities
            assert forall|h: Handle| #[trigger] e3.contains_key(h) implies {
                let rb = e3[h].physics.unwrap().rigid_body_handle;
                &&& w4.spec_bodies().contains_key(rb)
                &&& w4.spec_bodies()[rb] == (RigidBody {
                    translation: wrapped_translation(
                        w3.spec_bodies()[rb].translation,
                        frame.world_w as int,
                        frame.world_h as int,
                    ),
                    ..w3.spec_bodies()[rb]
                })
            } by {
                assert(handles@.contains(h));
                let j = choose|j: int| 0 <= j < handles@.len() && handles@[j] == h;
                assert(w3.spec_entities().contains_key(h));
                assert(linked(
                    w3.spec_entities(),
                    w3.spec_bodies(),
                    w3.spec_colliders(),
                    h,
                ));
            }
            // before the pass, the control law changed the player's
            // velocities only, never a translation
            assert forall|h: Handle| #[trigger] e0.contains_key(h) implies {
                let rb = e0[h].physics.unwrap().rigid_body_handle;
                &&& w3.spec_bodies().contains_key(rb)
                &&& w3.spec_bodies()[rb].translation == pre.spec_bodies()[rb].translation
            } by {
                assert(linked(e0, pre.spec_bodies(), pre.spec_colliders(), h));
                if pre.spec_entities().contains_key(player) && h != player {
                    assert(distinct_physics(e0[h], e0[player]));
                }
            }
            // a handle was collected for removal exactly when its entity
            // had expired
            assert forall|h: Handle| #[trigger] e0.contains_key(h) implies ((exists|l: int|
                0 <= l < to_remove@.len() && #[trigger] to_remove@[l] == h) <==> e0[h].expired(
                frame.now_ms,
            )) by {
                if e0[h].expired(frame.now_ms) {
                    assert(handles@.contains(h));
                    let j = choose|j: int| 0 <= j < handles@.len() && handles@[j] == h;
                    assert(e3[h].expired(frame.now_ms));
                    assert(to_remove@.contains(handles@[j]));
                }
                if exists|l: int| 0 <= l < to_remove@.len() && #[trigger] to_remove@[l] == h {
                    let l = choose|l: int|
                        0 <= l < to_remove@.len() && #[trigger] to_remove@[l] == h;
                    assert(e3[h].expired(frame.now_ms));
                }
            }
            // so an old entity survives the frame exactly when it had not
            // expired, with its record intact
            assert forall|h: Handle| #[trigger] e0.contains_key(h) implies {
                &&& (self.spec_entities().contains_key(h) <==> !e0[h].expired(frame.now_ms))
                &&& (self.spec_entities().contains_key(h) ==> self.spec_entities()[h] == e3[h])
            } by {}
            // new handles can only have come from the fire Add or the
            // spawn Add
            assert forall|h: Handle|
                !e0.contains_key(h) && #[trigger] self.spec_entities().contains_key(
                    h,
                ) implies e6.contains_key(h) && !e3.contains_key(h) by {}
            // and two new entities of the same kind are the same entity:
            // the fire Add's carries projectile state, the spawn Add's
            // does not
            assert forall|h1: Handle, h2: Handle|
                !e0.contains_key(h1) && #[trigger] self.spec_entities().contains_key(h1)
                    && !e0.contains_key(h2) && #[trigger] self.spec_entities().contains_key(h2)
                    && (self.spec_entities()[h1].projectile is Some) == (
                self.spec_entities()[h2].projectile is Some) implies h1 == h2 by {
                assert(e6.contains_key(h1) && !e3.contains_key(h1));
                assert(e6.contains_key(h2) && !e3.contains_key(h2));
                assert(self.spec_entities()[h1] == e6[h1]);
                assert(self.spec_entities()[h2] == e6[h2]);
            }
            // an open spawn window put a hostile in the store: the handle
            // the spawn Add produced is the witness
            if frame.now_ms % 1000 <= 100 && table@[pre.spec_ship() as int].info.rigid_body
                is Some && table@[pre.spec_ship() as int].info.collider is Some {
                let he = spawn_handle.unwrap();
                assert(!e3.contains_key(he));
                assert(e6.contains_key(he) && e6[he].resource == pre.spec_ship()
                    && e6[he].projectile is None && e6[he].player is None && e6[he].drawable
                    == Some(Drawable { resource: pre.spec_ship() }));
                assert forall|l: int| 0 <= l < to_remove@.len() implies to_remove@[l] != he by {
                    assert(e3.contains_key(to_remove@[l]));
                }
                assert(k == to_remove@.len());
                assert(!(exists|l: int| 0 <= l < k && #[trigger] to_remove@[l] == he));
                assert(self.spec_entities().contains_key(he));
                assert(self.spec_entities()[he] == e6[he]);
                assert(self.spec_bodies()[self.spec_entities()[he].physics.unwrap().rigid_body_handle]
                    == w6.spec_bodies()[e6[he].physics.unwrap().rigid_body_handle]);
            }
            // a shot the cooldown let through is in the store: the handle the
            // fire Add produced is the witness
            if e0.contains_key(player) && e0[player].fire_gate(frame.now_ms, frame.input.fire)
                && table@[pre.spec_bullet() as int].info.rigid_body is Some
                && table@[pre.spec_bullet() as int].info.collider is Some {
                let hb = fire_handle.unwrap();
                assert(!e0.contains_key(hb));
                assert(e6.contains_key(hb) && e6[hb].projectile == Some(
                    Projectile {
                        source: player,
                        fired_time: frame.now_ms,
                        lifetime: PROJECTILE_LIFETIME_MS,
                    },
                ));
                assert(!e3.contains_key(hb));
                assert forall|l: int| 0 <= l < to_remove@.len() implies to_remove@[l] != hb by {
                    assert(e3.contains_key(to_remove@[l]));
                }
                assert(k == to_remove@.len());
                assert(w6.spec_entities().contains_key(hb));
                assert(!(exists|l: int| 0 <= l < k && #[trigger] to_remove@[l] == hb));
                assert(self.spec_entities().contains_key(hb));
                assert(self.spec_entities()[hb] == e6[hb]);
                // the projectile's body was stamped at apply time from the
                // firer's controlled, wrapped body
                let prb = e0[player].physics.unwrap().rigid_body_handle;
                assert(e3.contains_key(player));
                assert(w4.spec_bodies().contains_key(prb) && w4.spec_bodies()[prb] == (RigidBody {
                    translation: wrapped_translation(
                        w3.spec_bodies()[prb].translation,
                        frame.world_w as int,
                        frame.world_h as int,
                    ),
                    ..w3.spec_bodies()[prb]
                }));
                assert(w3.spec_bodies()[prb] == controlled_body(
                    pre.spec_bodies()[prb],
                    true,
                    frame.input,
                ));
                let hbrb = e6[hb].physics.unwrap().rigid_body_handle;
                assert(self.spec_bodies().contains_key(hbrb) && self.spec_bodies()[hbrb]
                    == w6.spec_bodies()[hbrb]);
                assert({
                    let src1 = controlled_body(pre.spec_bodies()[prb], true, frame.input);
                    let src = RigidBody {
                        translation: wrapped_translation(
                            src1.translation,
                            frame.world_w as int,
                            frame.world_h as int,
                        ),
                        ..src1
                    };
                    let bullet_template =
                        table@[pre.spec_bullet() as int].info.rigid_body.unwrap();
                    let attrs = table@[e0[player].resource as int].info.attributes;
                    self.spec_bodies()[hbrb] == (if attrs is Some && attrs.unwrap().fire_points
                        is Some && attrs.unwrap().fire_points.unwrap().points@.len() > 0 {
                        projectile_body(
                            src,
                            attrs.unwrap().fire_points.unwrap().points@[0],
                            bullet_template,
                        )
                    } else {
                        bullet_template
                    })
                });
            }
        }
        r
    }

    /// The designated player's handle.
    pub fn get_player(&self) -> (r: Option<Handle>)
        ensures
            r == self.spec_player(),
    {
        self.player
    }

    /// Every live body's handle, each exactly once — for the external
    /// integrator to walk.
    pub fn body_handles(&self) -> (hs: Vec<Handle>)
        requires
            self.wf(),
        ensures
            forall|k: int| 0 <= k < hs@.len() ==> self.spec_bodies().contains_key(
                #[trigger] hs@[k],
            ),
            forall|h: Handle| self.spec_bodies().contains_key(h) ==> hs@.contains(h),
            forall|k: int, l: int| 0 <= k < l < hs@.len() ==> hs@[k] != hs@[l],
    {
        self.rigid_body_set.handles()
    }

    /// Reads one body, as the external integrator and the renderer do.
    pub fn get_body(&self, h: Handle) -> (r: Option<&RigidBody>)
        requires
            self.wf(),
        ensures
            match r {
                Some(b) => self.spec_bodies().contains_key(h) && *b == self.spec_bodies()[h],
                None => !self.spec_bodies().contains_key(h),
            },
    {
        self.rigid_body_set.get(h)
    }

    /// Writes one body back after the external integrator advanced it.
    /// The caller hands in normalized, in-range values; a stale handle
    /// makes this a no-op.
    pub fn set_body(&mut self, h: Handle, body: RigidBody) -> (ok: bool)
        requires
            old(self).wf(),
            body.wf(),
        ensures
            final(self).wf(),
            final(self).spec_entities() == old(self).spec_entities(),
            final(self).spec_colliders() == old(self).spec_colliders(),
            final(self).spec_player() == old(self).spec_player(),
            final(self).spec_ship() == old(self).spec_ship(),
            final(self).spec_bullet() == old(self).spec_bullet(),
            forall|n: nat| old(self).resources_ok(n) ==> final(self).resources_ok(n),
            if old(self).spec_bodies().contains_key(h) {
                ok && final(self).spec_bodies() == old(self).spec_bodies().insert(h, body)
            } else {
                !ok && final(self).spec_bodies() == old(self).spec_bodies()
            },
    {
        if self.rigid_body_set.contains(h) {
            self.rigid_body_set.update(h, body);
            proof {
                lemma_wf_body_update(*old(self), *self, h, body);
            }
            true
        } else {
            false
        }
    }

    /// What `req` asks the renderer to draw: the mesh of its entity's
    /// template at the entity's current transform.
    pub open spec fn draw_request_ok(self, req: DrawRequest) -> bool {
        &&& self.spec_entities().contains_key(req.entity)
        &&& self.spec_entities()[req.entity].drawable is Some
        &&& req.resource == self.spec_entities()[req.entity].drawable.unwrap().resource
        &&& req.transform == (Transform2 {
            translation: self.body_of(req.entity).translation,
            rotation: self.body_of(req.entity).rotation,
        })
    }

    /// One draw request per live entity that carries a drawable: the
    /// template to draw and the current world transform, read fresh from
    /// the body set.
    pub fn draw_requests(&self) -> (r: Vec<DrawRequest>)
        requires
            self.wf(),
        ensures
            forall|k: int| 0 <= k < r@.len() ==> self.draw_request_ok(#[trigger] r@[k]),
            forall|h: Handle|
                (#[trigger] self.spec_entities().contains_key(h)) && self.spec_entities()[h].drawable
                    is Some ==> exists|k: int|
                    0 <= k < r@.len() && (#[trigger] r@[k]).entity == h,
    {
        let handles = self.entities.handles();
        let mut r: Vec<DrawRequest> = Vec::new();
        let mut i: usize = 0;
        while i < handles.len()
            invariant
                self.wf(),
                i <= handles@.len(),
                forall|k: int|
                    0 <= k < handles@.len() ==> self.spec_entities().contains_key(
                        #[trigger] handles@[k],
                    ),
                forall|h: Handle| self.spec_entities().contains_key(h) ==> handles@.contains(h),
                forall|k: int, l: int|
                    0 <= k < l < handles@.len() ==> handles@[k] != handles@[l],
                forall|k: int| 0 <= k < r@.len() ==> self.draw_request_ok(#[trigger] r@[k]),
                forall|j: int|
                    0 <= j < i && self.spec_entities()[#[trigger] handles@[j]].drawable is Some
                        ==> exists|k: int|
                        0 <= k < r@.len() && (#[trigger] r@[k]).entity == handles@[j],
            decreases handles@.len() - i,
        {
            let h = handles[i];
            let e = match self.entities.get(h) {
                Some(e) => *e,
                None => {
                    proof {
                        assert(false);
                    }
                    return r;
                },
            };
            match &e.drawable {
                Some(d) => {
                    match e.transform(&self.rigid_body_set) {
                        Some(t) => {
                            let ghost r0 = r@;
                            let req = DrawRequest { entity: h, resource: d.resource, transform: t };
                            r.push(req);
                            proof {
                                assert(self.draw_request_ok(req));
                                assert forall|j: int|
                                    0 <= j < i + 1 && self.spec_entities()[#[trigger] handles@[j]].drawable
                                        is Some implies exists|k: int|
                                    0 <= k < r@.len() && (#[trigger] r@[k]).entity
                                        == handles@[j] by {
                                    if j < i {
                                        let k = choose|k: int|
                                            0 <= k < r0.len() && (#[trigger] r0[k]).entity
                                                == handles@[j];
                                        assert(r@[k] == r0[k]);
                                    } else {
                                        assert(r@[r@.len() - 1] == req);
                                    }
                                }
                            }
                        },
                        None => {
                            proof {
                                assert(false);
                            }
                        },
                    }
                },
                None => {
                },
            }
            i = i + 1;
        }
        proof {
            assert forall|h2: Handle|
                (#[trigger] self.spec_entities().contains_key(h2))
                    && self.spec_entities()[h2].drawable is Some implies exists|k: int|
                0 <= k < r@.len() && (#[trigger] r@[k]).entity == h2 by {
                assert(handles@.contains(h2));
                let j = choose|j: int| 0 <= j < handles@.len() && handles@[j] == h2;
            }
        }
        r
    }

    /// The entity record a hostile spawn carries.
    pub open spec fn enemy_entity(ship: usize) -> Entity {
        Entity {
            entity_holder: None,
            resource: ship,
            physics: None,
            drawable: Some(Drawable { resource: ship }),
            player: None,
            projectile: None,
        }
    }

    /// Builds the Add mutation for one hostile entity at a uniformly
    /// random position within the world bounds.
    pub fn spawn_enemy(&self, rand_x: u32, rand_y: u32, world_w: i64, world_h: i64) -> (r: Option<
        Vec<WorldMutator>,
    >)
        requires
            2 <= world_w <= COORD_LIMIT,
            2 <= world_h <= COORD_LIMIT,
        ensures
            match r {
                Some(ms) => ms@.len() == 1 && ms@[0] == WorldMutator::Add(
                    Self::enemy_entity(self.spec_ship()),
                    PostInit::PlaceAt {
                        pos: Vec2 {
                            x: place_coord_spec(
                                rand_x,
                                -(world_w / 2) as int,
                                (world_w / 2) as int,
                            ) as i64,
                            y: place_coord_spec(
                                rand_y,
                                -(world_h / 2) as int,
                                (world_h / 2) as int,
                            ) as i64,
                        },
                    },
                ),
                None => false,
            },
    {
        let p = place_on_map(rand_x, rand_y, world_w, world_h);
        let drawable = match Drawable::from_resource(self.ship) {
            Some(d) => d,
            None => {
                return None;
            },
        };
        let mut builder = EntityBuilder::new(self.ship);
        builder.drawable(drawable);
        Some(vec![builder.build_mutator(PostInit::PlaceAt { pos: p })])
    }
}

/// A renderer's work item: which entity it is for, which template's mesh
/// to draw, and at which world transform.
#[derive(Clone, Copy, Debug, PartialEq, Eq, Structural)]
pub struct DrawRequest {
    pub entity: Handle,
    pub resource: usize,
    pub transform: Transform2,
}

impl Default for World {
    /// An empty world; by convention the ship template is the table's
    /// first entry and the bullet template its second.
    fn default() -> (w: World)
        ensures
            w.wf(),
            w.spec_entities() == Map::<Handle, Entity>::empty(),
            w.spec_bodies() == Map::<Handle, RigidBody>::empty(),
            w.spec_colliders() == Map::<Handle, Collider>::empty(),
            w.spec_player() is None,
            w.spec_ship() == 0,
            w.spec_bullet() == 1,
    {
        World::new(0, 1)
    }
}

impl EntityBuilder {
    /// Submits the intent to the world right away, as one Add mutation.
    pub fn build(self, world: &mut World, post_init: PostInit, table: &ResourceTable) -> (r:
        Option<Handle>)
        requires
            old(world).wf(),
            table_wf(table@),
            old(world).resources_ok(table@.len()),
            self.spec_entity().resource < table@.len(),
            post_init.wf(table@.len()),
        ensures
            final(world).wf(),
            final(world).resources_ok(table@.len()),
            final(world).spec_player() == old(world).spec_player(),
            final(world).spec_ship() == old(world).spec_ship(),
            final(world).spec_bullet() == old(world).spec_bullet(),
            match r {
                None => {
                    &&& table@[self.spec_entity().resource as int].info.rigid_body is None
                        || table@[self.spec_entity().resource as int].info.collider is None
                    &&& final(world).spec_entities() == old(world).spec_entities()
                    &&& final(world).spec_bodies() == old(world).spec_bodies()
                    &&& final(world).spec_colliders() == old(world).spec_colliders()
                },
                Some(h) => add_effect(
                    *old(world),
                    *final(world),
                    self.spec_entity(),
                    post_init,
                    h,
                    table@,
                ),
            },
    {
        world.add_entity(self.force_build(), post_init, table)
    }
}

} // verus!
