//! Player behavior: the aiming control law, thrust and brake, and the
//! fire-cooldown gate.
//!
//! The control law is continuous, re-evaluated every frame: the angular
//! velocity command is the signed shortest angle from the current heading
//! to the bearing toward the cursor, scaled by a fixed gain.  The bearing
//! itself comes from the caller, whose trigonometry turns the cursor
//! offset into an angle; everything from there on is computed and
//! specified here.

use crate::entity::{Entity, MouseInfo, Player};
use crate::math::{
    clamp_add, clamp_coord_spec, mul_div, wrap, wrap_spec, Vec2, COORD_LIMIT, HALF_TURN, TURN,
};
use crate::physics::RigidBody;
use crate::projectile::{projectile_entity, PROJECTILE_LIFETIME_MS};
use crate::store::Handle;
use crate::world_mutator::{PostInit, WorldMutator};
use vstd::arithmetic::div_mod::{lemma_div_is_ordered, lemma_div_multiples_vanish, lemma_fundamental_div_mod};
use vstd::prelude::*;

verus! {

/// The cooldown between shots, in milliseconds: a shot fires only if
/// `now - last_fire_time > FIRE_COOLDOWN_MS`.
pub const FIRE_COOLDOWN_MS: u64 = 200;

/// The gain turning an angle error into an angular velocity command.
pub const AIM_GAIN: i64 = 3;

/// The velocity a thrust frame adds along the heading, in world units per
/// second.
pub const THRUST: i64 = 10;

/// Braking scales the linear velocity by `BRAKE_NUM / BRAKE_DEN` each
/// frame.
pub const BRAKE_NUM: i64 = 97;

/// See [`BRAKE_NUM`].
pub const BRAKE_DEN: i64 = 100;

/// The key and button states a frame hands to the control law.
#[derive(Clone, Copy, Debug, PartialEq, Eq, Structural)]
pub struct InputState {
    /// Forward-thrust key held.
    pub thrust: bool,
    /// Brake key held.
    pub brake: bool,
    /// Fire button held.
    pub fire: bool,
    /// The bearing from the player toward the cursor, in milli-degrees.
    pub aim_bearing: i64,
}

impl InputState {
    /// The bearing is a normalized angle.
    pub open spec fn wf(self) -> bool {
        -HALF_TURN <= self.aim_bearing <= HALF_TURN
    }
}

/// The signed shortest angular distance from the heading `rot` to the
/// bearing `bearing`, in `[-HALF_TURN, HALF_TURN)`.
pub open spec fn angle_error(bearing: int, rot: int) -> int {
    wrap_spec(bearing - rot, TURN as int)
}

/// One velocity component scaled by the brake's damping factor
/// `BRAKE_NUM / BRAKE_DEN`, rounded toward zero so that braking strictly
/// shrinks every nonzero component and never reverses it.
pub open spec fn brake_scaled(v: int) -> int {
    if v >= 0 {
        v * BRAKE_NUM / (BRAKE_DEN as int)
    } else {
        -((-v) * BRAKE_NUM / (BRAKE_DEN as int))
    }
}

/// One velocity component after a control frame: braking scales it by
/// the damping factor, then thrust adds `THRUST` along the heading
/// component `d`, clamped into the coordinate range.
pub open spec fn next_velocity(v: int, d: int, thrust: bool, brake: bool) -> int {
    let braked = if brake {
        brake_scaled(v)
    } else {
        v
    };
    if thrust {
        clamp_coord_spec(braked + d * THRUST)
    } else {
        braked
    }
}

/// The body after one control frame: the rotation command is written when
/// player state is present, and brake/thrust rework the linear velocity.
pub open spec fn controlled_body(b: RigidBody, has_player: bool, input: InputState) -> RigidBody {
    RigidBody {
        translation: b.translation,
        rotation: b.rotation,
        angvel: if has_player {
            (AIM_GAIN * angle_error(input.aim_bearing as int, b.rotation.angle as int)) as i64
        } else {
            b.angvel
        },
        linvel: Vec2 {
            x: next_velocity(
                b.linvel.x as int,
                b.rotation.dir.x as int,
                input.thrust,
                input.brake,
            ) as i64,
            y: next_velocity(
                b.linvel.y as int,
                b.rotation.dir.y as int,
                input.thrust,
                input.brake,
            ) as i64,
        },
    }
}

/// Braking strictly shrinks every nonzero velocity component and never
/// reverses its sign; a component at rest stays at rest.
pub proof fn lemma_brake_strictly_shrinks(v: int)
    requires
        -COORD_LIMIT <= v <= COORD_LIMIT,
    ensures
        v > 0 ==> 0 <= brake_scaled(v) < v,
        v < 0 ==> v < brake_scaled(v) <= 0,
        v == 0 ==> brake_scaled(v) == 0,
{
    let num = BRAKE_NUM as int;
    let den = BRAKE_DEN as int;
    lemma_brake_magnitude(if v >= 0 {
        v
    } else {
        -v
    });
    if v == 0 {
        vstd::arithmetic::div_mod::lemma_div_of0(den);
    }
}

/// The damping factor applied to a nonnegative magnitude lands strictly
/// below it (for a positive magnitude) and stays nonnegative.
proof fn lemma_brake_magnitude(m: int)
    requires
        0 <= m <= COORD_LIMIT,
    ensures
        0 <= m * BRAKE_NUM / (BRAKE_DEN as int) <= m,
        m > 0 ==> m * BRAKE_NUM / (BRAKE_DEN as int) < m,
{
    let num = BRAKE_NUM as int;
    let den = BRAKE_DEN as int;
    assert(0 <= m * 97 <= m * 100) by (nonlinear_arith)
        requires
            m >= 0,
    ;
    assert(m > 0 ==> m * 97 <= m * 100 - 1) by (nonlinear_arith)
        requires
            m >= 0,
    ;
    lemma_div_multiples_vanish(m, den);
    lemma_div_is_ordered(0, m * num, den);
    lemma_div_is_ordered(m * num, m * den, den);
    if m > 0 {
        lemma_div_is_ordered(m * num, m * den - 1, den);
        assert((m * den - 1) / den == m - 1) by {
            vstd::arithmetic::div_mod::lemma_fundamental_div_mod_converse(
                m * den - 1,
                den,
                m - 1,
                den - 1,
            );
            assert(m * den - 1 == den * (m - 1) + (den - 1)) by (nonlinear_arith);
        }
    }
}

/// Fire cooldown: after a shot goes through at `now1`, a second attempt
/// at `now2` goes through exactly when more than the cooldown has elapsed
/// since then.  In particular, two attempts less than the cooldown apart
/// yield exactly one shot, and two attempts further apart yield two.
pub proof fn lemma_fire_cooldown(e: Entity, now1: u64, now2: u64)
    requires
        e.fire_gate(now1, true),
        now1 <= now2,
    ensures
        ({
            let e2 = Entity {
                player: Some(
                    Player { mouse_info: e.player.unwrap().mouse_info, last_fire_time: now1 },
                ),
                ..e
            };
            &&& e2.fire_gate(now2, true) <==> now2 > now1 + FIRE_COOLDOWN_MS
            &&& now2 <= now1 + FIRE_COOLDOWN_MS ==> !e2.fire_gate(now2, true)
        }),
{
}

/// Aiming convergence: exact integration of the commanded angular
/// velocity over a step `dt_ms` of at most a third of a second moves the
/// heading toward the bearing without overshooting — the angle error
/// keeps its sign and shrinks (weakly) in magnitude; an error of zero
/// stays zero.
pub proof fn lemma_aiming_convergence(heading: int, bearing: int, dt_ms: int)
    requires
        0 <= dt_ms <= 333,
    ensures
        ({
            let err = angle_error(bearing, heading);
            let heading2 = heading + AIM_GAIN * err * dt_ms / 1000;
            let err2 = angle_error(bearing, heading2);
            &&& err >= 0 ==> 0 <= err2 <= err
            &&& err <= 0 ==> err <= err2 <= 0
        }),
{
    let d = TURN as int;
    let err = angle_error(bearing, heading);
    let t = AIM_GAIN * err * dt_ms / 1000;
    let heading2 = heading + t;
    crate::math::lemma_wrap_range_idempotent(bearing - heading, d);
    // the wrapped error differs from the raw difference by whole turns
    let q = (bearing - heading + d / 2) / d;
    assert(bearing - heading == err + d * q) by {
        lemma_fundamental_div_mod(bearing - heading + d / 2, d);
    }
    // the integration step never crosses past the bearing
    if err >= 0 {
        assert(0 <= AIM_GAIN * err * dt_ms <= 999 * err) by (nonlinear_arith)
            requires
                0 <= dt_ms <= 333,
                err >= 0,
                AIM_GAIN == 3,
        ;
        assert(0 <= t <= err) by {
            lemma_div_is_ordered(0, AIM_GAIN * err * dt_ms, 1000);
            lemma_div_is_ordered(AIM_GAIN * err * dt_ms, 1000 * err, 1000);
            lemma_div_multiples_vanish(err, 1000);
            assert(0int / 1000 == 0) by {
                vstd::arithmetic::div_mod::lemma_div_of0(1000);
            }
        }
    } else {
        assert(1000 * err <= AIM_GAIN * err * dt_ms <= 0) by (nonlinear_arith)
            requires
                0 <= dt_ms <= 333,
                err < 0,
                AIM_GAIN == 3,
        ;
        assert(err <= t <= 0) by {
            lemma_div_is_ordered(1000 * err, AIM_GAIN * err * dt_ms, 1000);
            lemma_div_is_ordered(AIM_GAIN * err * dt_ms, 0, 1000);
            lemma_div_multiples_vanish(err, 1000);
            assert(0int / 1000 == 0) by {
                vstd::arithmetic::div_mod::lemma_div_of0(1000);
            }
        }
    }
    // so the new raw difference is congruent to err - t, which is already
    // a normalized angle
    assert(bearing - heading2 == (err - t) + d * q);
    crate::math::lemma_wrap_congruent(err - t, q, d);
    crate::math::lemma_wrap_range_idempotent(err - t, d);
    assert(angle_error(bearing, heading2) == err - t);
}

impl Entity {
    /// The signed shortest angle from the body's heading to the bearing
    /// toward the cursor; `None` without player state.
    pub fn angle_to_mouse(&self, rigid_body: &RigidBody, aim_bearing: i64) -> (r: Option<i64>)
        requires
            rigid_body.wf(),
            -HALF_TURN <= aim_bearing <= HALF_TURN,
        ensures
            match r {
                Some(e) => self.player is Some && e == angle_error(
                    aim_bearing as int,
                    rigid_body.rotation.angle as int,
                ),
                None => self.player is None,
            },
    {
        match &self.player {
            Some(_) => Some(wrap(aim_bearing - rigid_body.rotation.angle, TURN)),
            None => None,
        }
    }

    /// Writes the angular velocity command: the angle error toward the
    /// cursor times the gain.  Without player state nothing changes.
    pub fn update_rotation(&self, rigid_body: &mut RigidBody, aim_bearing: i64) -> (r: Option<()>)
        requires
            old(rigid_body).wf(),
            -HALF_TURN <= aim_bearing <= HALF_TURN,
        ensures
            final(rigid_body).wf(),
            final(rigid_body).translation == old(rigid_body).translation,
            final(rigid_body).linvel == old(rigid_body).linvel,
            final(rigid_body).rotation == old(rigid_body).rotation,
            match r {
                Some(_) => self.player is Some && final(rigid_body).angvel == AIM_GAIN
                    * angle_error(aim_bearing as int, old(rigid_body).rotation.angle as int),
                None => self.player is None && final(rigid_body).angvel == old(rigid_body).angvel,
            },
    {
        let angle_to_mouse = match self.angle_to_mouse(rigid_body, aim_bearing) {
            Some(e) => e,
            None => {
                return None;
            },
        };
        let angvel = angle_to_mouse * AIM_GAIN;
        rigid_body.angvel = angvel;
        Some(())
    }

    /// Applies brake and thrust to the body's linear velocity, per the key
    /// states; with neither key held the velocity persists.
    pub fn update_velocity(&self, rigid_body: &mut RigidBody, thrust: bool, brake: bool) -> (r:
        Option<()>)
        requires
            old(rigid_body).wf(),
        ensures
            final(rigid_body).wf(),
            final(rigid_body).translation == old(rigid_body).translation,
            final(rigid_body).rotation == old(rigid_body).rotation,
            final(rigid_body).angvel == old(rigid_body).angvel,
            final(rigid_body).linvel.x == next_velocity(
                old(rigid_body).linvel.x as int,
                old(rigid_body).rotation.dir.x as int,
                thrust,
                brake,
            ),
            final(rigid_body).linvel.y == next_velocity(
                old(rigid_body).linvel.y as int,
                old(rigid_body).rotation.dir.y as int,
                thrust,
                brake,
            ),
            r is Some,
    {
        let mut vx = rigid_body.linvel.x;
        let mut vy = rigid_body.linvel.y;
        if brake {
            proof {
                lemma_brake_strictly_shrinks(vx as int);
                lemma_brake_strictly_shrinks(vy as int);
            }
            vx = if vx >= 0 {
                mul_div(vx, BRAKE_NUM, BRAKE_DEN)
            } else {
                -mul_div(-vx, BRAKE_NUM, BRAKE_DEN)
            };
            vy = if vy >= 0 {
                mul_div(vy, BRAKE_NUM, BRAKE_DEN)
            } else {
                -mul_div(-vy, BRAKE_NUM, BRAKE_DEN)
            };
        }
        if thrust {
            vx = clamp_add(vx, rigid_body.rotation.dir.x * THRUST);
            vy = clamp_add(vy, rigid_body.rotation.dir.y * THRUST);
        }
        rigid_body.linvel = Vec2 { x: vx, y: vy };
        Some(())
    }

    /// One control frame on the body: the rotation command (when player
    /// state is present) and the velocity update.
    pub fn update_input(&self, rigid_body: &mut RigidBody, input: &InputState) -> (r: Option<()>)
        requires
            old(rigid_body).wf(),
            input.wf(),
        ensures
            final(rigid_body).wf(),
            *final(rigid_body) == controlled_body(*old(rigid_body), self.player is Some, *input),
            r is Some,
    {
        proof {
            crate::math::lemma_wrap_range_idempotent(
                input.aim_bearing - rigid_body.rotation.angle,
                TURN as int,
            );
            lemma_brake_strictly_shrinks(rigid_body.linvel.x as int);
            lemma_brake_strictly_shrinks(rigid_body.linvel.y as int);
        }
        let _ = self.update_rotation(rigid_body, input.aim_bearing);
        let _ = self.update_velocity(rigid_body, input.thrust, input.brake);
        Some(())
    }

    /// Whether the cooldown gate lets a shot through at `now`.
    pub open spec fn fire_gate(self, now: u64, fire_down: bool) -> bool {
        &&& self.player is Some
        &&& fire_down
        &&& now > self.player.unwrap().last_fire_time + FIRE_COOLDOWN_MS
    }

    /// The fire gate: holding the fire button fires a shot only if more
    /// than the cooldown has elapsed since the last one.  On success the
    /// timestamp is updated and exactly one projectile Add is returned; no
    /// other gate state exists.
    pub fn update_fire(&mut self, player: Handle, now: u64, fire_down: bool, bullet: usize) -> (r:
        Option<WorldMutator>)
        ensures
            if old(self).fire_gate(now, fire_down) {
                &&& *final(self) == (Entity {
                    player: Some(
                        Player {
                            mouse_info: old(self).player.unwrap().mouse_info,
                            last_fire_time: now,
                        },
                    ),
                    ..*old(self)
                })
                &&& r == Some(
                    WorldMutator::Add(
                        projectile_entity(bullet, player, now, PROJECTILE_LIFETIME_MS),
                        PostInit::ProjectileFrom { source: *final(self) },
                    ),
                )
            } else {
                &&& *final(self) == *old(self)
                &&& r is None
            },
    {
        let p = match &self.player {
            Some(p) => *p,
            None => {
                return None;
            },
        };
        if fire_down && now > p.last_fire_time && now - p.last_fire_time > FIRE_COOLDOWN_MS {
            self.player = Some(Player { mouse_info: p.mouse_info, last_fire_time: now });
            let source_entity = *self;
            match Entity::spawn_projectile(
                player,
                source_entity,
                PROJECTILE_LIFETIME_MS,
                now,
                bullet,
            ) {
                Some(m) => Some(m),
                None => None,
            }
        } else {
            None
        }
    }
}

} // verus!
