//! The toroidal wrap and the fixed-point helpers.

use arena_core::math::{
    clamp_add, div_euclid_by, mul_div, place_on_map, wrap, Vec2, COORD_LIMIT,
};
use arena_core::physics::crop_to_world;
use arena_core::math::{world_center, world_max_coord, world_min_coord, world_size};

#[test]
fn wrap_examples_from_both_sides() {
    // extent 1000: leaving one edge re-enters the opposite edge
    assert_eq!(wrap(-501, 1000), 499);
    assert_eq!(wrap(501, 1000), -499);
}

#[test]
fn wrap_is_identity_inside_the_range() {
    assert_eq!(wrap(0, 1000), 0);
    assert_eq!(wrap(499, 1000), 499);
    assert_eq!(wrap(-500, 1000), -500);
    assert_eq!(wrap(123, 1000), 123);
}

#[test]
fn wrap_is_idempotent_on_samples() {
    for &p in &[-2_000_000_i64, -501, -1, 0, 1, 499, 500, 501, 999, 1000, 7_777_777] {
        for &d in &[2_i64, 3, 7, 1000, 1001, 360_000] {
            let once = wrap(p, d);
            assert_eq!(wrap(once, d), once);
            assert!(-(d / 2) <= once && once < d - d / 2);
        }
    }
}

#[test]
fn wrap_whole_turns_vanish() {
    assert_eq!(wrap(250 + 3 * 1000, 1000), 250);
    assert_eq!(wrap(250 - 5 * 1000, 1000), 250);
}

#[test]
fn clamp_add_saturates_at_the_world_limit() {
    assert_eq!(clamp_add(1, 2), 3);
    assert_eq!(clamp_add(COORD_LIMIT, 1), COORD_LIMIT);
    assert_eq!(clamp_add(-COORD_LIMIT, -1), -COORD_LIMIT);
    assert_eq!(clamp_add(COORD_LIMIT - 5, 3), COORD_LIMIT - 2);
}

#[test]
fn mul_div_rounds_toward_negative_infinity() {
    assert_eq!(mul_div(100, 97, 100), 97);
    assert_eq!(mul_div(-100, 97, 100), -97);
    assert_eq!(mul_div(1, 97, 100), 0);
    assert_eq!(mul_div(-1, 97, 100), -1);
}

#[test]
fn div_euclid_by_floors() {
    assert_eq!(div_euclid_by(7, 2), 3);
    assert_eq!(div_euclid_by(-7, 2), -4);
    assert_eq!(div_euclid_by(-1000, 1000), -1);
    assert_eq!(div_euclid_by(-1001, 1000), -2);
}

#[test]
fn place_on_map_lands_inside_the_world() {
    for &(rx, ry) in &[(0u32, 0u32), (u32::MAX, u32::MAX), (123456789, 987654321)] {
        let p: Vec2 = place_on_map(rx, ry, 3000, 5000);
        assert!(-1500 <= p.x && p.x < 1500);
        assert!(-2500 <= p.y && p.y < 2500);
    }
    // extreme random values map to the two ends of the range
    let low = place_on_map(0, 0, 3000, 5000);
    assert_eq!(low.x, -1500);
    assert_eq!(low.y, -2500);
    let high = place_on_map(u32::MAX, u32::MAX, 3000, 5000);
    assert_eq!(high.x, 1499);
    assert_eq!(high.y, 2499);
}

#[test]
fn world_bounds_follow_the_screen() {
    assert_eq!(world_size(1_920_000, 1_080_000), (5_760_000, 3_240_000));
    assert_eq!(world_min_coord(1_920_000, 1_080_000), (-2_880_000, -1_620_000));
    assert_eq!(world_max_coord(1_920_000, 1_080_000), (2_880_000, 1_620_000));
    assert_eq!(world_center(), (0, 0));
    // a position past the right edge re-enters on the left
    let wrapped = crop_to_world(Vec2 { x: 2_900_000, y: 0 }, 5_760_000, 3_240_000);
    assert_eq!(wrapped, Vec2 { x: -2_860_000, y: 0 });
}
