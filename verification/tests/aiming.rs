//! The aiming control law: angle error, command, convergence.

use arena_core::entity::{Entity, MouseInfo, Player};
use arena_core::math::{wrap, Vec2, TURN};
use arena_core::physics::{RigidBody, Rotation2};
use arena_core::player::InputState;

fn aiming_player_entity() -> Entity {
    Entity {
        entity_holder: None,
        resource: 0,
        physics: None,
        drawable: None,
        player: Some(Player { mouse_info: MouseInfo { pos: Vec2 { x: 0, y: 0 } }, last_fire_time: 0 }),
        projectile: None,
    }
}

fn heading_body(angle: i64, dir: Vec2) -> RigidBody {
    RigidBody {
        translation: Vec2 { x: 0, y: 0 },
        linvel: Vec2 { x: 0, y: 0 },
        rotation: Rotation2 { angle, dir },
        angvel: 0,
    }
}

#[test]
fn cursor_dead_ahead_gives_zero_error() {
    let e = aiming_player_entity();
    let body = heading_body(0, Vec2 { x: 1000, y: 0 });
    assert_eq!(e.angle_to_mouse(&body, 0), Some(0));
}

#[test]
fn cursor_a_quarter_turn_aside_gives_a_quarter_turn_error() {
    let e = aiming_player_entity();
    let body = heading_body(0, Vec2 { x: 1000, y: 0 });
    // 90 degrees to the left and to the right, in milli-degrees
    assert_eq!(e.angle_to_mouse(&body, 90_000), Some(90_000));
    assert_eq!(e.angle_to_mouse(&body, -90_000), Some(-90_000));
}

#[test]
fn the_error_goes_the_short_way_around() {
    let e = aiming_player_entity();
    let body = heading_body(170_000, Vec2 { x: 1000, y: 0 });
    // from 170 degrees to a bearing of -170 degrees: 20 degrees onward,
    // not 340 degrees back
    assert_eq!(e.angle_to_mouse(&body, -170_000), Some(20_000));
}

#[test]
fn without_player_state_there_is_no_error() {
    let mut e = aiming_player_entity();
    e.player = None;
    let body = heading_body(0, Vec2 { x: 1000, y: 0 });
    assert_eq!(e.angle_to_mouse(&body, 90_000), None);
}

#[test]
fn the_command_is_the_error_times_the_gain() {
    let e = aiming_player_entity();
    let mut body = heading_body(30_000, Vec2 { x: 1000, y: 0 });
    e.update_rotation(&mut body, 90_000);
    assert_eq!(body.angvel, 3 * 60_000);
    let mut body = heading_body(0, Vec2 { x: 1000, y: 0 });
    e.update_rotation(&mut body, -45_000);
    assert_eq!(body.angvel, 3 * -45_000);
}

#[test]
fn repeated_frames_shrink_the_error_monotonically() {
    let e = aiming_player_entity();
    let bearing: i64 = 0;
    let mut heading: i64 = 40_000;
    let dt_ms: i64 = 16;
    let mut last_abs = i64::MAX;
    for _ in 0..120 {
        let mut body = heading_body(heading, Vec2 { x: 1000, y: 0 });
        e.update_rotation(&mut body, bearing);
        let err = e.angle_to_mouse(&body, bearing).unwrap();
        assert!(err.abs() <= last_abs, "the error must never grow");
        last_abs = err.abs();
        // exact integration of the commanded angular velocity
        heading = wrap(heading + body.angvel * dt_ms / 1000, TURN);
    }
    assert!(last_abs < 1_000, "after two seconds the heading is nearly on target");
}

#[test]
fn thrust_adds_velocity_along_the_heading() {
    let e = aiming_player_entity();
    let mut body = heading_body(0, Vec2 { x: 1000, y: 0 });
    e.update_velocity(&mut body, true, false);
    assert_eq!(body.linvel, Vec2 { x: 10_000, y: 0 });
    // thrust while heading up
    let mut body = heading_body(90_000, Vec2 { x: 0, y: 1000 });
    e.update_velocity(&mut body, true, false);
    assert_eq!(body.linvel, Vec2 { x: 0, y: 10_000 });
}

#[test]
fn brake_scales_velocity_down() {
    let e = aiming_player_entity();
    let mut body = heading_body(0, Vec2 { x: 1000, y: 0 });
    body.linvel = Vec2 { x: 10_000, y: -10_000 };
    e.update_velocity(&mut body, false, true);
    assert_eq!(body.linvel, Vec2 { x: 9_700, y: -9_700 });
}

#[test]
fn brake_shrinks_every_nonzero_component_toward_rest() {
    let e = aiming_player_entity();
    // small components, both signs: braking rounds toward zero, so the
    // speed strictly shrinks and never reverses
    let mut body = heading_body(0, Vec2 { x: 1000, y: 0 });
    body.linvel = Vec2 { x: 33, y: -33 };
    e.update_velocity(&mut body, false, true);
    assert_eq!(body.linvel, Vec2 { x: 32, y: -32 });
    let mut body = heading_body(0, Vec2 { x: 1000, y: 0 });
    body.linvel = Vec2 { x: 1, y: -1 };
    e.update_velocity(&mut body, false, true);
    assert_eq!(body.linvel, Vec2 { x: 0, y: 0 });
    // and a component at rest stays at rest
    e.update_velocity(&mut body, false, true);
    assert_eq!(body.linvel, Vec2 { x: 0, y: 0 });
}

#[test]
fn with_neither_key_the_velocity_persists() {
    let e = aiming_player_entity();
    let mut body = heading_body(0, Vec2 { x: 1000, y: 0 });
    body.linvel = Vec2 { x: 123, y: 456 };
    e.update_velocity(&mut body, false, false);
    assert_eq!(body.linvel, Vec2 { x: 123, y: 456 });
}

#[test]
fn update_input_combines_rotation_and_velocity() {
    let e = aiming_player_entity();
    let mut body = heading_body(0, Vec2 { x: 1000, y: 0 });
    let input = InputState { thrust: true, brake: false, fire: false, aim_bearing: 90_000 };
    e.update_input(&mut body, &input);
    assert_eq!(body.angvel, 3 * 90_000);
    assert_eq!(body.linvel, Vec2 { x: 10_000, y: 0 });
    assert_eq!(body.translation, Vec2 { x: 0, y: 0 });
}
