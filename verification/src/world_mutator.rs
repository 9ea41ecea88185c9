//! Deferred structural mutations.
//!
//! Structural changes — adding or removing an entity — are never applied
//! during the read pass over the store.  They are recorded as mutators and
//! applied strictly afterwards, in enqueue order.  An Add carries a
//! one-shot initializer that runs once the new entity's physics handles
//! exist; the initializer is an explicit datum rather than a captured
//! closure, making the two-phase protocol (submit intent, commit,
//! finalize) structural.

use crate::entity::{Entity, EntityBuilder};
use crate::math::{Vec2, COORD_LIMIT};
use crate::store::Handle;
use vstd::prelude::*;

verus! {

/// A one-shot initializer for a freshly attached entity.
#[derive(Clone, Copy, Debug)]
pub enum PostInit {
    /// Nothing to initialize.
    Noop,
    /// Move the new entity's body to a position (enemy spawn).
    PlaceAt { pos: Vec2 },
    /// Give a projectile its spawn transform and velocity, computed from
    /// the source entity's physics state as it stands at apply time.
    ProjectileFrom { source: Entity },
}

impl PostInit {
    /// The initializer's data are within range for a table of `n`
    /// resources.
    pub open spec fn wf(self, n: nat) -> bool {
        match self {
            PostInit::Noop => true,
            PostInit::PlaceAt { pos } => pos.bounded(COORD_LIMIT as int),
            PostInit::ProjectileFrom { source } => source.resource < n,
        }
    }
}

/// A deferred structural operation: evict a live entity, or insert a new
/// one and attach its physics.
#[derive(Clone, Copy, Debug)]
pub enum WorldMutator {
    Remove(Handle),
    Add(Entity, PostInit),
}

impl WorldMutator {
    /// The mutator's data are within range for a table of `n` resources.
    pub open spec fn wf(self, n: nat) -> bool {
        match self {
            WorldMutator::Remove(_) => true,
            WorldMutator::Add(e, post_init) => e.resource < n && post_init.wf(n),
        }
    }
}

impl EntityBuilder {
    /// Packs the intent as an Add mutation with the given initializer.
    pub fn build_mutator(self, post_init: PostInit) -> (m: WorldMutator)
        ensures
            m == WorldMutator::Add(self.spec_entity(), post_init),
    {
        WorldMutator::Add(self.force_build(), post_init)
    }

    /// Packs the intent as an Add mutation with nothing to initialize.
    pub fn build_no_postinit(self) -> (m: WorldMutator)
        ensures
            m == WorldMutator::Add(self.spec_entity(), PostInit::Noop),
    {
        WorldMutator::Add(self.force_build(), PostInit::Noop)
    }
}

} // verus!
