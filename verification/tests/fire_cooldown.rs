//! The fire-cooldown gate.

use arena_core::entity::{Drawable, EntityBuilder, MouseInfo, Player};
use arena_core::math::Vec2;
use arena_core::physics::{Collider, RigidBody};
use arena_core::resource::{Attributes, FirePoints, Info, Resource};
use arena_core::world::World;

fn cooldown_template() -> Resource {
    Resource {
        width: 10_000,
        height: 10_000,
        info: Info {
            attributes: Some(Attributes {
                collision_group: None,
                fire_points: Some(FirePoints::new(vec![Vec2 { x: 5000, y: 0 }])),
            }),
            collider: Some(Collider { parent: None, group: None }),
            rigid_body: Some(RigidBody::at_rest()),
        },
    }
}

fn cooldown_world() -> (World, Vec<Resource>) {
    let table = vec![cooldown_template(), cooldown_template()];
    let mut world = World::new(0, 1);
    let mut builder = EntityBuilder::new(0);
    builder.drawable(Drawable { resource: 0 });
    builder.player(Player { mouse_info: MouseInfo { pos: Vec2 { x: 0, y: 0 } }, last_fire_time: 0 });
    world.set_player(builder.build_no_postinit(), &table);
    (world, table)
}

#[test]
fn two_attempts_within_the_cooldown_yield_one_shot() {
    let (mut world, table) = cooldown_world();
    let player = world.get_player().unwrap();
    // first attempt: well past the initial timestamp, fires
    let first = world.fire(player, 1000, true);
    assert!(first.is_some());
    world.handle_mutator(first.unwrap(), &table);
    // second attempt 0.1 s later: inside the cooldown, no shot
    let second = world.fire(player, 1100, true);
    assert!(second.is_none());
}

#[test]
fn two_attempts_past_the_cooldown_yield_two_shots() {
    let (mut world, table) = cooldown_world();
    let player = world.get_player().unwrap();
    let first = world.fire(player, 1000, true);
    assert!(first.is_some());
    world.handle_mutator(first.unwrap(), &table);
    // 0.25 s later: the cooldown has elapsed, fires again
    let second = world.fire(player, 1250, true);
    assert!(second.is_some());
}

#[test]
fn exactly_at_the_cooldown_boundary_no_shot() {
    let (mut world, _table) = cooldown_world();
    let player = world.get_player().unwrap();
    let first = world.fire(player, 1000, true);
    assert!(first.is_some());
    // firing again demands strictly more than the cooldown
    let second = world.fire(player, 1200, true);
    assert!(second.is_none());
    let third = world.fire(player, 1201, true);
    assert!(third.is_some());
}

#[test]
fn released_button_never_fires() {
    let (mut world, _table) = cooldown_world();
    let player = world.get_player().unwrap();
    assert!(world.fire(player, 1000, false).is_none());
}

#[test]
fn a_playerless_entity_never_fires() {
    let table = vec![cooldown_template(), cooldown_template()];
    let mut world = World::new(0, 1);
    world.set_player(EntityBuilder::new(0).build_no_postinit(), &table);
    let player = world.get_player().unwrap();
    assert!(world.fire(player, 1000, true).is_none());
}
