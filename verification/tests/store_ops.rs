//! The generational store: insert, lookup, removal, stale handles.

use arena_core::store::GenArena;

#[test]
fn insert_then_get_returns_the_value() {
    let mut arena: GenArena<i64> = GenArena::new();
    assert_eq!(arena.len(), 0);
    let h = arena.insert(42);
    assert_eq!(arena.len(), 1);
    assert!(arena.contains(h));
    assert_eq!(arena.get(h), Some(&42));
}

#[test]
fn remove_returns_the_value_and_invalidates_the_handle() {
    let mut arena: GenArena<i64> = GenArena::new();
    let h = arena.insert(7);
    let v = arena.remove(h);
    assert_eq!(v, 7);
    assert_eq!(arena.len(), 0);
    assert!(!arena.contains(h));
    assert_eq!(arena.get(h), None);
}

#[test]
fn stale_handle_does_not_alias_a_reused_slot() {
    let mut arena: GenArena<i64> = GenArena::new();
    let first = arena.insert(1);
    arena.remove(first);
    // the slot is reused, under a fresh generation
    let second = arena.insert(2);
    assert_eq!(second.idx, first.idx);
    assert_ne!(second.generation, first.generation);
    assert_eq!(arena.get(first), None);
    assert_eq!(arena.get(second), Some(&2));
}

#[test]
fn update_replaces_in_place() {
    let mut arena: GenArena<i64> = GenArena::new();
    let h = arena.insert(10);
    arena.update(h, 20);
    assert_eq!(arena.get(h), Some(&20));
    assert_eq!(arena.len(), 1);
}

#[test]
fn handles_lists_each_live_value_once() {
    let mut arena: GenArena<i64> = GenArena::new();
    let a = arena.insert(1);
    let b = arena.insert(2);
    let c = arena.insert(3);
    arena.remove(b);
    let hs = arena.handles();
    assert_eq!(hs.len(), 2);
    assert!(hs.contains(&a));
    assert!(hs.contains(&c));
    assert!(!hs.contains(&b));
}

#[test]
fn many_inserts_and_removals_keep_the_count_right() {
    let mut arena: GenArena<i64> = GenArena::new();
    let mut hs = Vec::new();
    for i in 0..100i64 {
        hs.push(arena.insert(i));
    }
    assert_eq!(arena.len(), 100);
    for h in hs.iter().take(50) {
        arena.remove(*h);
    }
    assert_eq!(arena.len(), 50);
    for (i, h) in hs.iter().enumerate().skip(50) {
        assert_eq!(arena.get(*h), Some(&(i as i64)));
    }
}
