//! The collision-group name table.

use arena_core::collision::{Collision, InteractionGroups};

#[test]
fn known_groups_resolve() {
    assert_eq!(Collision::from_str("ships"), InteractionGroups { memberships: 0b01, filter: 0b11 });
    assert_eq!(
        Collision::from_str("bullets"),
        InteractionGroups { memberships: 0b10, filter: 0b11 }
    );
}

#[test]
fn names_are_matched_without_regard_to_ascii_case() {
    assert_eq!(Collision::from_str("SHIPS"), Collision::from_str("ships"));
    assert_eq!(Collision::from_str("Bullets"), Collision::from_str("bullets"));
    assert_eq!(Collision::from_str("bUlLeTs"), Collision::from_str("bullets"));
}

#[test]
fn unknown_names_fall_back_to_the_all_group() {
    let all = InteractionGroups { memberships: 0xffffffff, filter: 0xffffffff };
    assert_eq!(Collision::from_str(""), all);
    assert_eq!(Collision::from_str("asteroids"), all);
    assert_eq!(Collision::from_str("ship"), all);
    assert_eq!(Collision::from_str("shipss"), all);
}
