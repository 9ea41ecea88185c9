//! Whole frames: wrap, expiry, the spawn gate, the camera.

use arena_core::entity::{Drawable, Entity, EntityBuilder, MouseInfo, Player};
use arena_core::math::Vec2;
use arena_core::physics::{Collider, RigidBody, Rotation2};
use arena_core::player::InputState;
use arena_core::resource::{Attributes, FirePoints, Info, Resource};
use arena_core::world::{FrameInput, World};

fn frame_template() -> Resource {
    Resource {
        width: 10_000,
        height: 10_000,
        info: Info {
            attributes: Some(Attributes {
                collision_group: None,
                fire_points: Some(FirePoints::new(vec![Vec2 { x: 5000, y: 0 }])),
            }),
            collider: Some(Collider { parent: None, group: None }),
            rigid_body: Some(RigidBody::at_rest()),
        },
    }
}

fn frame_world() -> (World, Vec<Resource>) {
    let table = vec![frame_template(), frame_template()];
    let mut world = World::new(0, 1);
    let mut builder = EntityBuilder::new(0);
    builder.drawable(Drawable { resource: 0 });
    builder.player(Player { mouse_info: MouseInfo { pos: Vec2 { x: 0, y: 0 } }, last_fire_time: 0 });
    world.set_player(builder.build_no_postinit(), &table);
    (world, table)
}

fn quiet_frame(now_ms: u64) -> FrameInput {
    FrameInput {
        now_ms,
        cursor: Vec2 { x: 0, y: 0 },
        input: InputState { thrust: false, brake: false, fire: false, aim_bearing: 0 },
        rand_x: 0,
        rand_y: 0,
        world_w: 5000,
        world_h: 5000,
    }
}

#[test]
fn without_a_player_the_frame_is_a_no_op() {
    let table = vec![frame_template(), frame_template()];
    let mut world = World::new(0, 1);
    assert!(world.update(&table, &quiet_frame(500)).is_none());
    assert_eq!(world.entity_count(), 0);
}

#[test]
fn the_frame_wraps_positions_and_targets_the_camera() {
    let (mut world, table) = frame_world();
    let player = world.get_player().unwrap();
    let rb = world.get_entity(player).unwrap().physics.unwrap().rigid_body_handle;
    // past the right edge of a 5000-wide world
    let strayed = RigidBody {
        translation: Vec2 { x: 2600, y: 0 },
        linvel: Vec2 { x: 0, y: 0 },
        rotation: Rotation2 { angle: 0, dir: Vec2 { x: 1000, y: 0 } },
        angvel: 0,
    };
    assert!(world.set_body(rb, strayed));
    let target = world.update(&table, &quiet_frame(500));
    // the body re-entered from the left edge, and the camera follows
    assert_eq!(target, Some(Vec2 { x: -2400, y: 0 }));
    assert_eq!(world.get_body(rb).unwrap().translation, Vec2 { x: -2400, y: 0 });
}

#[test]
fn the_frame_removes_expired_projectiles() {
    let (mut world, table) = frame_world();
    let player = world.get_player().unwrap();
    let source = *world.get_entity(player).unwrap();
    let m = Entity::spawn_projectile(player, source, 100, 400, 1).unwrap();
    let bullet = world.handle_mutator(m, &table).unwrap();
    assert_eq!(world.entity_count(), 2);
    // not yet expired at 499
    world.update(&table, &quiet_frame(499));
    assert_eq!(world.entity_count(), 2);
    // at 500 the lifetime has elapsed: the projectile's entity is gone
    world.update(&table, &quiet_frame(500));
    assert_eq!(world.entity_count(), 1);
    assert!(world.get_entity(bullet).is_none());
}

#[test]
fn the_spawn_gate_adds_a_hostile_about_once_a_second() {
    let (mut world, table) = frame_world();
    assert_eq!(world.entity_count(), 1);
    // 2050 % 1000 is inside the tolerant window: one hostile appears
    world.update(&table, &quiet_frame(2050));
    assert_eq!(world.entity_count(), 2);
    // 2500 % 1000 is outside the window: nothing appears
    world.update(&table, &quiet_frame(2500));
    assert_eq!(world.entity_count(), 2);
}

#[test]
fn firing_through_frames_respects_the_cooldown() {
    let (mut world, table) = frame_world();
    let mut frame = quiet_frame(1150);
    frame.input.fire = true;
    world.update(&table, &frame);
    // the shot went through: the projectile entity is in the store
    assert_eq!(world.entity_count(), 2);
    // 0.1 s later the cooldown still blocks the shot
    let mut frame = quiet_frame(1250);
    frame.input.fire = true;
    world.update(&table, &frame);
    assert_eq!(world.entity_count(), 2);
    // 0.25 s after the shot the cooldown has elapsed
    let mut frame = quiet_frame(1450);
    frame.input.fire = true;
    world.update(&table, &frame);
    assert_eq!(world.entity_count(), 3);
}

#[test]
fn the_fired_projectile_gets_the_spawn_geometry() {
    let (mut world, table) = frame_world();
    let player = world.get_player().unwrap();
    let rb = world.get_entity(player).unwrap().physics.unwrap().rigid_body_handle;
    // the firer sits at (1, 0), heading straight up
    let moved = RigidBody {
        translation: Vec2 { x: 1000, y: 0 },
        linvel: Vec2 { x: 0, y: 0 },
        rotation: Rotation2 { angle: 90_000, dir: Vec2 { x: 0, y: 1000 } },
        angvel: 0,
    };
    assert!(world.set_body(rb, moved));
    let mut frame = quiet_frame(1150);
    frame.input.fire = true;
    frame.input.aim_bearing = 90_000;
    world.update(&table, &frame);
    assert_eq!(world.entity_count(), 2);
    let reqs = world.draw_requests();
    let shot = reqs.iter().find(|r| r.entity != player).unwrap();
    let e = world.get_entity(shot.entity).unwrap();
    assert!(e.projectile.is_some());
    let body = world.get_body(e.physics.unwrap().rigid_body_handle).unwrap();
    // the fire point (5, 0) rotated a quarter turn puts the shot at
    // (1, 5), leaving upward at the projectile speed
    assert_eq!(body.translation, Vec2 { x: 1000, y: 5_000 });
    assert_eq!(body.linvel, Vec2 { x: 0, y: 800_000 });
    assert_eq!(body.rotation, Rotation2 { angle: 90_000, dir: Vec2 { x: 0, y: 1000 } });
}

#[test]
fn the_frame_refreshes_the_aim_from_the_cursor() {
    let (mut world, table) = frame_world();
    let player = world.get_player().unwrap();
    let mut frame = quiet_frame(500);
    frame.cursor = Vec2 { x: 777, y: -888 };
    world.update(&table, &frame);
    let e = world.get_entity(player).unwrap();
    assert_eq!(e.player.unwrap().mouse_info.pos, Vec2 { x: 777, y: -888 });
}

#[test]
fn the_frame_writes_the_control_commands() {
    let (mut world, table) = frame_world();
    let player = world.get_player().unwrap();
    let rb = world.get_entity(player).unwrap().physics.unwrap().rigid_body_handle;
    let mut frame = quiet_frame(500);
    frame.input.thrust = true;
    frame.input.aim_bearing = 90_000;
    world.update(&table, &frame);
    let body = world.get_body(rb).unwrap();
    assert_eq!(body.angvel, 3 * 90_000);
    assert_eq!(body.linvel, Vec2 { x: 10_000, y: 0 });
}
