//! Fixed-point scalar and vector arithmetic, and the toroidal wrap.

use vstd::arithmetic::div_mod::{
    lemma_fundamental_div_mod, lemma_mod_add_multiples_vanish, lemma_mod_bound,
};
use vstd::prelude::*;

verus! {

/// One world unit, in milli-units.
pub const UNIT: i64 = 1000;

/// One full turn, in milli-degrees.
pub const TURN: i64 = 360000;

/// Half a turn, in milli-degrees.
pub const HALF_TURN: i64 = 180000;

/// Largest coordinate or velocity magnitude the world accepts (milli-units).
pub const COORD_LIMIT: i64 = 1000000000000;

/// A two-dimensional fixed-point vector (milli-units).
#[derive(Clone, Copy, Debug, PartialEq, Eq, Structural)]
pub struct Vec2 {
    pub x: i64,
    pub y: i64,
}

impl Vec2 {
    /// Both components within the given magnitude.
    pub open spec fn bounded(self, limit: int) -> bool {
        -limit <= self.x <= limit && -limit <= self.y <= limit
    }

    pub fn new(x: i64, y: i64) -> (v: Vec2)
        ensures
            v == (Vec2 { x, y }),
    {
        Vec2 { x, y }
    }

    pub fn zero() -> (v: Vec2)
        ensures
            v == (Vec2 { x: 0, y: 0 }),
    {
        Vec2 { x: 0, y: 0 }
    }
}

/// Where a position lands on a toroidal axis of extent `d`: the unique value
/// congruent to `p` modulo `d` that lies in `[-(d / 2), d - d / 2)`.
pub open spec fn wrap_spec(p: int, d: int) -> int
    recommends
        d > 0,
{
    (p + d / 2) % d - d / 2
}

/// Wraps one position component into the world extent `d`.
pub fn wrap(p: i64, d: i64) -> (r: i64)
    requires
        0 < d,
    ensures
        r == wrap_spec(p as int, d as int),
        -(d / 2) <= r < d - d / 2,
{
    let half: i64 = ((d as u64) / 2) as i64;
    let off: i128 = (p as i128) + (half as i128);
    let m: i128 = match off.checked_rem_euclid(d as i128) {
        Some(m) => m,
        None => 0,
    };
    proof {
        lemma_mod_bound(off as int, d as int);
    }
    (m - (half as i128)) as i64
}

/// Wrap idempotence and range: `wrap_spec` always lands in
/// `[-(d / 2), d - d / 2)` (which is `[-d/2, d/2)` for even `d`), it is the
/// identity there, and wrapping twice equals wrapping once.
pub proof fn lemma_wrap_range_idempotent(p: int, d: int)
    requires
        d > 0,
    ensures
        -(d / 2) <= wrap_spec(p, d) < d - d / 2,
        d % 2 == 0 ==> -(d / 2) <= wrap_spec(p, d) < d / 2,
        -(d / 2) <= p < d - d / 2 ==> wrap_spec(p, d) == p,
        wrap_spec(wrap_spec(p, d), d) == wrap_spec(p, d),
{
    let h = d / 2;
    lemma_mod_bound(p + h, d);
    lemma_fundamental_div_mod(d, 2);
    if -h <= p < d - h {
        lemma_mod_bound(p + h, d);
        assert((p + h) % d == p + h) by {
            lemma_fundamental_div_mod(p + h, d);
            lemma_mod_bound(p + h, d);
            vstd::arithmetic::div_mod::lemma_fundamental_div_mod_converse_mod(p + h, d, 0, p + h);
        }
    }
    let w = wrap_spec(p, d);
    assert(-h <= w < d - h);
    assert((w + h) % d == w + h) by {
        vstd::arithmetic::div_mod::lemma_fundamental_div_mod_converse_mod(w + h, d, 0, w + h);
    }
}

/// Wrapping ignores whole turns: adding any multiple of the extent to the
/// position leaves the wrapped value unchanged.
pub proof fn lemma_wrap_congruent(p: int, k: int, d: int)
    requires
        d > 0,
    ensures
        wrap_spec(p + k * d, d) == wrap_spec(p, d),
{
    let h = d / 2;
    lemma_mod_add_multiples_vanish(p + h, d);
    assert((p + k * d + h) % d == (p + h) % d) by {
        vstd::arithmetic::div_mod::lemma_mod_multiples_vanish(k, p + h, d);
    }
}

/// Clamps a value into `[-COORD_LIMIT, COORD_LIMIT]`.
pub open spec fn clamp_coord_spec(v: int) -> int {
    if v < -COORD_LIMIT {
        -COORD_LIMIT as int
    } else if v > COORD_LIMIT {
        COORD_LIMIT as int
    } else {
        v
    }
}

/// Adds two coordinates, clamping the sum into the world's coordinate range.
pub fn clamp_add(a: i64, b: i64) -> (r: i64)
    ensures
        r == clamp_coord_spec(a + b),
{
    let s: i128 = (a as i128) + (b as i128);
    if s < -COORD_LIMIT as i128 {
        -COORD_LIMIT
    } else if s > COORD_LIMIT as i128 {
        COORD_LIMIT
    } else {
        s as i64
    }
}

proof fn lemma_div_stays_in_range(a: int, b: int)
    requires
        b >= 1,
    ensures
        a <= 0 ==> a <= a / b <= 0,
        a >= 0 ==> 0 <= a / b <= a,
{
    lemma_fundamental_div_mod(a, b);
    lemma_mod_bound(a, b);
    let q = a / b;
    let r = a % b;
    assert(a <= 0 ==> a <= q <= 0) by (nonlinear_arith)
        requires
            a == b * q + r,
            0 <= r < b,
            b >= 1,
    ;
    assert(a >= 0 ==> 0 <= q <= a) by (nonlinear_arith)
        requires
            a == b * q + r,
            0 <= r < b,
            b >= 1,
    ;
}

/// `a / b` with the quotient rounded toward negative infinity, matching
/// the Euclidean `/` of specifications.
pub fn div_euclid_by(a: i64, b: i64) -> (r: i64)
    requires
        0 < b,
    ensures
        r == (a as int) / (b as int),
{
    proof {
        lemma_div_stays_in_range(a as int, b as int);
    }
    match a.checked_div_euclid(b) {
        Some(q) => q,
        None => 0,
    }
}

/// `v * num / den` with the quotient rounded toward negative infinity,
/// matching the Euclidean `/` of specifications.
pub fn mul_div(v: i64, num: i64, den: i64) -> (r: i64)
    requires
        0 < num <= 1000000,
        0 < den <= 1000000,
        -COORD_LIMIT <= v <= COORD_LIMIT,
        -COORD_LIMIT <= v * num / (den as int) <= COORD_LIMIT,
    ensures
        r == v * num / (den as int),
{
    proof {
        assert(-0x10000000000000000 <= v * num <= 0x10000000000000000) by (nonlinear_arith)
            requires
                0 < num <= 1000000,
                -COORD_LIMIT <= v <= COORD_LIMIT,
        ;
    }
    let prod: i128 = (v as i128) * (num as i128);
    let q: i128 = match prod.checked_div_euclid(den as i128) {
        Some(q) => q,
        None => 0,
    };
    proof {
        lemma_mod_bound(v * num, den as int);
        lemma_fundamental_div_mod(v * num, den as int);
    }
    q as i64
}

/// The factor between the screen and the world: the world is this many
/// screens wide and high, and the wrap period matches it.
pub const WORLD_SCREENS: i64 = 3;

/// The world extents: the screen dimensions times the world multiplier.
pub fn world_size(screen_w: i64, screen_h: i64) -> (r: (i64, i64))
    requires
        0 < screen_w <= COORD_LIMIT / WORLD_SCREENS,
        0 < screen_h <= COORD_LIMIT / WORLD_SCREENS,
    ensures
        r.0 == WORLD_SCREENS * screen_w,
        r.1 == WORLD_SCREENS * screen_h,
        0 < r.0 <= COORD_LIMIT,
        0 < r.1 <= COORD_LIMIT,
{
    (WORLD_SCREENS * screen_w, WORLD_SCREENS * screen_h)
}

/// The world's lower-left corner.
pub fn world_min_coord(screen_w: i64, screen_h: i64) -> (r: (i64, i64))
    requires
        0 < screen_w <= COORD_LIMIT / WORLD_SCREENS,
        0 < screen_h <= COORD_LIMIT / WORLD_SCREENS,
    ensures
        r.0 == -(WORLD_SCREENS * screen_w / 2),
        r.1 == -(WORLD_SCREENS * screen_h / 2),
{
    let (w, h) = world_size(screen_w, screen_h);
    (-(((w as u64) / 2) as i64), -(((h as u64) / 2) as i64))
}

/// The world's upper-right corner.
pub fn world_max_coord(screen_w: i64, screen_h: i64) -> (r: (i64, i64))
    requires
        0 < screen_w <= COORD_LIMIT / WORLD_SCREENS,
        0 < screen_h <= COORD_LIMIT / WORLD_SCREENS,
    ensures
        r.0 == WORLD_SCREENS * screen_w / 2,
        r.1 == WORLD_SCREENS * screen_h / 2,
{
    let (w, h) = world_size(screen_w, screen_h);
    ((((w as u64) / 2) as i64), (((h as u64) / 2) as i64))
}

/// The world's center: the origin.
pub fn world_center() -> (r: (i64, i64))
    ensures
        r == (0i64, 0i64),
{
    (0, 0)
}

/// Where a uniform random value `r` lands on `[min, max)`.
pub open spec fn place_coord_spec(r: u32, min: int, max: int) -> int {
    min + r * (max - min) / 0x100000000
}

/// A uniform random value lands within the axis range it is mapped to.
pub proof fn lemma_place_coord_in_range(r: u32, min: int, max: int)
    requires
        -COORD_LIMIT <= min < max <= COORD_LIMIT,
    ensures
        min <= place_coord_spec(r, min, max) < max,
{
    let ri = r as int;
    let si = max - min;
    assert(0 <= ri * si <= 0xffffffff * si) by (nonlinear_arith)
        requires
            0 <= ri <= 0xffffffff,
            0 < si,
    ;
    lemma_mod_bound(ri * si, 0x100000000);
    lemma_fundamental_div_mod(ri * si, 0x100000000);
    let q = ri * si / 0x100000000;
    let rem = ri * si % 0x100000000;
    assert(0 <= q < si) by (nonlinear_arith)
        requires
            ri * si == 0x100000000 * q + rem,
            0 <= rem < 0x100000000,
            0 <= ri * si <= 0xffffffff * si,
            0 < si <= 0x1d1a94a2000,
    ;
}

/// Maps a uniform random value onto one world axis: the result lies in
/// `[min, max)`.
pub fn place_coord(r: u32, min: i64, max: i64) -> (v: i64)
    requires
        -COORD_LIMIT <= min < max <= COORD_LIMIT,
    ensures
        v == place_coord_spec(r, min as int, max as int),
        min <= v < max,
{
    let size: i128 = (max as i128) - (min as i128);
    proof {
        lemma_place_coord_in_range(r, min as int, max as int);
        lemma_fundamental_div_mod((r as int) * (max - min), 0x100000000);
        lemma_mod_bound((r as int) * (max - min), 0x100000000);
        assert(0 <= (r as int) * (max - min)) by (nonlinear_arith)
            requires
                0 <= r as int,
                0 < max - min,
        ;
    }
    let scaled: u128 = ((r as u128) * (size as u128)) / 0x100000000;
    min + (scaled as i64)
}

/// A uniformly random position within the world bounds, both axes in
/// `[-(extent / 2), extent / 2)`.
pub fn place_on_map(rand_x: u32, rand_y: u32, world_w: i64, world_h: i64) -> (p: Vec2)
    requires
        2 <= world_w <= COORD_LIMIT,
        2 <= world_h <= COORD_LIMIT,
    ensures
        p.x == place_coord_spec(rand_x, -(world_w / 2) as int, (world_w / 2) as int),
        p.y == place_coord_spec(rand_y, -(world_h / 2) as int, (world_h / 2) as int),
        -(world_w / 2) <= p.x < world_w / 2,
        -(world_h / 2) <= p.y < world_h / 2,
        p.bounded(COORD_LIMIT as int),
{
    let half_w: i64 = ((world_w as u64) / 2) as i64;
    let half_h: i64 = ((world_h as u64) / 2) as i64;
    let x = place_coord(rand_x, -half_w, half_w);
    let y = place_coord(rand_y, -half_h, half_h);
    Vec2 { x, y }
}

} // verus!
