//! Immutable per-template resource bundles.
//!
//! A resource is loaded once at startup (vector-art parsing and mesh
//! tessellation are external and out of scope here) and shared for the
//! process lifetime: the physics defaults a new entity's body and collider
//! are cloned from, its drawable extent, and named attributes — the
//! collision group and the local fire-point offsets.  Entities refer to
//! their template by its index in a process-wide resource table.

use crate::collision::InteractionGroups;
use crate::math::Vec2;
use crate::physics::{Collider, RigidBody};
use vstd::prelude::*;

verus! {

/// Largest magnitude a fire-point offset component may have
/// (milli-units).
pub const FIRE_POINT_LIMIT: i64 = 1000000;

/// The local-space offsets at which projectiles originate on a firing
/// entity.
#[derive(Clone, Debug)]
pub struct FirePoints {
    pub points: Vec<Vec2>,
}

impl FirePoints {
    /// Every offset is within the fire-point range.
    pub open spec fn wf(&self) -> bool {
        forall|i: int|
            0 <= i < self.points@.len() ==> (#[trigger] self.points@[i]).bounded(
                FIRE_POINT_LIMIT as int,
            )
    }

    pub fn new(points: Vec<Vec2>) -> (fp: FirePoints)
        ensures
            fp.points@ == points@,
    {
        FirePoints { points }
    }

    /// The offsets as plain points.
    pub fn get_point2s(&self) -> (r: &Vec<Vec2>)
        ensures
            r@ == self.points@,
    {
        &self.points
    }
}

/// The named attributes a template carries.
#[derive(Clone, Debug)]
pub struct Attributes {
    pub collision_group: Option<InteractionGroups>,
    pub fire_points: Option<FirePoints>,
}

/// The instantiation data of a template: attributes plus the physics
/// defaults cloned into every entity stamped from it.
#[derive(Clone, Debug)]
pub struct Info {
    pub attributes: Option<Attributes>,
    pub collider: Option<Collider>,
    pub rigid_body: Option<RigidBody>,
}

impl Info {
    pub fn collision_group(&self) -> (r: Option<&InteractionGroups>)
        ensures
            match r {
                Some(g) => self.attributes is Some
                    && self.attributes.unwrap().collision_group == Some(*g),
                None => self.attributes is None || self.attributes.unwrap().collision_group
                    is None,
            },
    {
        match &self.attributes {
            Some(a) => a.collision_group.as_ref(),
            None => None,
        }
    }

    pub fn fire_points(&self) -> (r: Option<&FirePoints>)
        ensures
            match r {
                Some(fp) => self.attributes is Some && self.attributes.unwrap().fire_points
                    is Some && fp.points@ == self.attributes.unwrap().fire_points.unwrap().points@,
                None => self.attributes is None || self.attributes.unwrap().fire_points is None,
            },
    {
        match &self.attributes {
            Some(a) => a.fire_points.as_ref(),
            None => None,
        }
    }
}

/// An immutable, shared template a new entity is stamped from.  The visual
/// mesh itself lives with the renderer; this core keeps its extent.
#[derive(Clone, Debug)]
pub struct Resource {
    pub width: i64,
    pub height: i64,
    pub info: Info,
}

impl Resource {
    /// The template's physics defaults and fire points are within range.
    pub open spec fn wf(&self) -> bool {
        &&& match self.info.rigid_body {
            Some(b) => b.wf(),
            None => true,
        }
        &&& match self.info.attributes {
            Some(a) => match a.fire_points {
                Some(fp) => fp.wf(),
                None => true,
            },
            None => true,
        }
    }
}

/// The process-wide resource table, built once at startup and passed by
/// shared reference; entities name their template by index.
pub type ResourceTable = Vec<Resource>;

/// Every template in the table is well-formed.
pub open spec fn table_wf(table: Seq<Resource>) -> bool {
    forall|i: int| 0 <= i < table.len() ==> (#[trigger] table[i]).wf()
}

} // verus!
