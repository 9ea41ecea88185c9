//! Projectile expiry and spawn geometry.

use arena_core::entity::{Drawable, Entity, EntityBuilder, Projectile};
use arena_core::math::Vec2;
use arena_core::physics::{Collider, RigidBody, Rotation2};
use arena_core::resource::{Attributes, FirePoints, Info, Resource};
use arena_core::store::Handle;
use arena_core::world::World;
use arena_core::world_mutator::{PostInit, WorldMutator};

fn projectile_template() -> Resource {
    Resource {
        width: 10_000,
        height: 10_000,
        info: Info {
            attributes: Some(Attributes {
                collision_group: None,
                fire_points: Some(FirePoints::new(vec![Vec2 { x: 5000, y: 0 }])),
            }),
            collider: Some(Collider { parent: None, group: None }),
            rigid_body: Some(RigidBody::at_rest()),
        },
    }
}

#[test]
fn expiry_is_signalled_exactly_at_the_lifetime() {
    let h = Handle { idx: 3, generation: 0 };
    let e = Entity {
        entity_holder: Some(h),
        resource: 1,
        physics: None,
        drawable: None,
        player: None,
        projectile: Some(Projectile { source: h, fired_time: 1000, lifetime: 500 }),
    };
    // strictly before the lifetime has elapsed: nothing
    assert!(e.update_projectile(1499).is_none());
    // exactly at the lifetime: the owning entity is to be removed
    match e.update_projectile(1500) {
        Some(WorldMutator::Remove(hh)) => assert_eq!(hh, h),
        _ => panic!("expected a Remove at the expiry boundary"),
    }
    assert!(e.update_projectile(2500).is_some());
}

#[test]
fn entities_without_projectile_state_never_expire() {
    let h = Handle { idx: 0, generation: 0 };
    let e = Entity {
        entity_holder: Some(h),
        resource: 0,
        physics: None,
        drawable: None,
        player: None,
        projectile: None,
    };
    assert!(e.update_projectile(u64::MAX).is_none());
}

#[test]
fn spawn_projectile_builds_the_add_mutation() {
    let source = Handle { idx: 5, generation: 2 };
    let source_entity = EntityBuilder::new(0).force_build();
    let m = Entity::spawn_projectile(source, source_entity, 1000, 42, 1).unwrap();
    match m {
        WorldMutator::Add(e, PostInit::ProjectileFrom { .. }) => {
            assert_eq!(e.resource, 1);
            assert_eq!(e.drawable, Some(Drawable { resource: 1 }));
            assert_eq!(
                e.projectile,
                Some(Projectile { source, fired_time: 42, lifetime: 1000 })
            );
            assert!(e.player.is_none());
            assert!(e.physics.is_none());
        },
        _ => panic!("expected an Add with the projectile initializer"),
    }
}

#[test]
fn spawn_geometry_rotates_the_fire_point_and_adds_speed() {
    let table = vec![projectile_template(), projectile_template()];
    let mut world = World::new(0, 1);
    // the source: heading straight up (90 degrees), moving, away from the origin
    let source_h = world
        .add_entity(EntityBuilder::new(0).force_build(), PostInit::Noop, &table)
        .unwrap();
    let source_entity = *world.get_entity(source_h).unwrap();
    let rb = source_entity.physics.unwrap().rigid_body_handle;
    let moved = RigidBody {
        translation: Vec2 { x: 10_000, y: 20_000 },
        linvel: Vec2 { x: 100, y: 200 },
        rotation: Rotation2 { angle: 90_000, dir: Vec2 { x: 0, y: 1000 } },
        angvel: 0,
    };
    assert!(world.set_body(rb, moved));
    let source_entity = *world.get_entity(source_h).unwrap();
    let m = Entity::spawn_projectile(source_h, source_entity, 1000, 7, 1).unwrap();
    let bullet_h = world.handle_mutator(m, &table).unwrap();
    let bullet = *world.get_entity(bullet_h).unwrap();
    let body = world.get_body(bullet.physics.unwrap().rigid_body_handle).unwrap();
    // fire point (5, 0) rotated a quarter turn becomes (0, 5)
    assert_eq!(body.translation, Vec2 { x: 10_000, y: 25_000 });
    // spawn velocity: the source's, plus the projectile speed along its heading
    assert_eq!(body.linvel, Vec2 { x: 100, y: 200 + 800_000 });
    // the projectile leaves with the source's rotation
    assert_eq!(body.rotation, Rotation2 { angle: 90_000, dir: Vec2 { x: 0, y: 1000 } });
}

#[test]
fn spawn_geometry_without_fire_points_leaves_the_body_at_rest() {
    let mut no_points = projectile_template();
    no_points.info.attributes = Some(Attributes { collision_group: None, fire_points: None });
    let table = vec![no_points, projectile_template()];
    let mut world = World::new(0, 1);
    let source_h = world
        .add_entity(EntityBuilder::new(0).force_build(), PostInit::Noop, &table)
        .unwrap();
    let source_entity = *world.get_entity(source_h).unwrap();
    let m = Entity::spawn_projectile(source_h, source_entity, 1000, 7, 1).unwrap();
    let bullet_h = world.handle_mutator(m, &table).unwrap();
    let bullet = *world.get_entity(bullet_h).unwrap();
    let body = world.get_body(bullet.physics.unwrap().rigid_body_handle).unwrap();
    // the initializer was a silent no-op: the template body stands
    assert_eq!(*body, RigidBody::at_rest());
}
