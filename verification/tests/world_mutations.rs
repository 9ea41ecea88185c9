//! Structural mutations: attach, rollback, eviction.

use arena_core::collision::InteractionGroups;
use arena_core::entity::EntityBuilder;
use arena_core::math::Vec2;
use arena_core::physics::{Collider, RigidBody};
use arena_core::resource::{Attributes, FirePoints, Info, Resource};
use arena_core::world::World;
use arena_core::world_mutator::PostInit;

fn mutation_template(with_body: bool, with_collider: bool) -> Resource {
    Resource {
        width: 10_000,
        height: 10_000,
        info: Info {
            attributes: Some(Attributes {
                collision_group: Some(InteractionGroups { memberships: 0b01, filter: 0b11 }),
                fire_points: Some(FirePoints::new(vec![Vec2 { x: 5000, y: 0 }])),
            }),
            collider: if with_collider {
                Some(Collider { parent: None, group: None })
            } else {
                None
            },
            rigid_body: if with_body { Some(RigidBody::at_rest()) } else { None },
        },
    }
}

#[test]
fn attach_failure_rolls_the_store_back() {
    // the ship template lacks a collider shape: the Add must leave the
    // store exactly as it was
    let table = vec![mutation_template(true, false), mutation_template(true, true)];
    let mut world = World::new(0, 1);
    let before = world.entity_count();
    let r = world.add_entity(EntityBuilder::new(0).force_build(), PostInit::Noop, &table);
    assert!(r.is_none());
    assert_eq!(world.entity_count(), before);
}

#[test]
fn attach_failure_without_body_rolls_back_too() {
    let table = vec![mutation_template(false, true), mutation_template(true, true)];
    let mut world = World::new(0, 1);
    let good = world.add_entity(EntityBuilder::new(1).force_build(), PostInit::Noop, &table);
    assert!(good.is_some());
    let before = world.entity_count();
    let r = world.add_entity(EntityBuilder::new(0).force_build(), PostInit::Noop, &table);
    assert!(r.is_none());
    assert_eq!(world.entity_count(), before);
}

#[test]
fn successful_add_fully_attaches() {
    let table = vec![mutation_template(true, true), mutation_template(true, true)];
    let mut world = World::new(0, 1);
    let h = world
        .add_entity(EntityBuilder::new(0).force_build(), PostInit::Noop, &table)
        .expect("template is complete");
    assert_eq!(world.entity_count(), 1);
    let e = *world.get_entity(h).expect("just inserted");
    assert_eq!(e.entity_holder, Some(h));
    let physics = e.physics.expect("attached");
    let body = world.get_body(physics.rigid_body_handle).expect("body exists");
    assert_eq!(*body, RigidBody::at_rest());
}

#[test]
fn place_at_initializer_moves_the_new_body() {
    let table = vec![mutation_template(true, true)];
    let mut world = World::new(0, 0);
    let h = world
        .add_entity(
            EntityBuilder::new(0).force_build(),
            PostInit::PlaceAt { pos: Vec2 { x: 123, y: -456 } },
            &table,
        )
        .expect("template is complete");
    let e = *world.get_entity(h).unwrap();
    let body = world.get_body(e.physics.unwrap().rigid_body_handle).unwrap();
    assert_eq!(body.translation, Vec2 { x: 123, y: -456 });
}

#[test]
fn remove_evicts_and_detaches() {
    let table = vec![mutation_template(true, true)];
    let mut world = World::new(0, 0);
    let h = world
        .add_entity(EntityBuilder::new(0).force_build(), PostInit::Noop, &table)
        .unwrap();
    let e = world.remove_entity(h);
    assert_eq!(e.entity_holder, Some(h));
    assert_eq!(world.entity_count(), 0);
    assert!(world.get_entity(h).is_none());
    assert!(world.get_body(e.physics.unwrap().rigid_body_handle).is_none());
}

#[test]
fn a_removed_handle_never_resolves_again() {
    let table = vec![mutation_template(true, true)];
    let mut world = World::new(0, 0);
    let first = world
        .add_entity(EntityBuilder::new(0).force_build(), PostInit::Noop, &table)
        .unwrap();
    world.remove_entity(first);
    // the next insert reuses the slot, under a fresh generation
    let second = world
        .add_entity(EntityBuilder::new(0).force_build(), PostInit::Noop, &table)
        .unwrap();
    assert_eq!(second.idx, first.idx);
    assert_ne!(second.generation, first.generation);
    assert!(world.get_entity(first).is_none());
    assert!(world.get_entity(second).is_some());
}

#[test]
fn set_player_designates_the_new_entity() {
    let table = vec![mutation_template(true, true)];
    let mut world = World::new(0, 0);
    let m = EntityBuilder::new(0).build_no_postinit();
    world.set_player(m, &table);
    let p = world.get_player().expect("player was set");
    assert!(world.get_entity(p).is_some());
}

#[test]
fn draw_requests_cover_the_drawables() {
    let table = vec![mutation_template(true, true)];
    let mut world = World::new(0, 0);
    let mut builder = EntityBuilder::new(0);
    builder.drawable(arena_core::entity::Drawable { resource: 0 });
    let h = world.add_entity(builder.force_build(), PostInit::Noop, &table).unwrap();
    // a second entity without a drawable produces no request
    let _ = world.add_entity(EntityBuilder::new(0).force_build(), PostInit::Noop, &table).unwrap();
    let reqs = world.draw_requests();
    assert_eq!(reqs.len(), 1);
    assert_eq!(reqs[0].entity, h);
    assert_eq!(reqs[0].resource, 0);
    assert_eq!(reqs[0].transform.translation, Vec2 { x: 0, y: 0 });
}
