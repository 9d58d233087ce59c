use vstd::prelude::*;

use crate::pattern::{Point, SpawnBulletEvent};

verus! {

/// The collision radius of every bullet, in milli-units.
pub const BULLET_RADIUS: u32 = 5_000;

/// The length of a unit vector in a `Heading`.
pub const UNIT_VECTOR: i64 = 1_000_000;

/// Nanoseconds in a second.
pub const NANOS_PER_SECOND: i128 = 1_000_000_000;

/// The direction of an angle: its cosine and sine, in millionths.
#[derive(Clone, Copy, Debug, PartialEq, Eq)]
pub struct Heading {
    pub cos: i32,
    pub sin: i32,
}

/// A bullet in flight: its velocity (milli-units per second) and collision
/// radius (milli-units).
#[derive(Clone, Copy, Debug, PartialEq, Eq, Default)]
pub struct Bullet {
    pub u: i64,
    pub v: i64,
    pub radius: u32,
}

/// Integer division rounded toward zero.
pub open spec fn trunc_div(a: int, d: int) -> int {
    if a >= 0 {
        a / d
    } else {
        -((-a) / d)
    }
}

/// `a` scaled by the unit-vector component `c`.
pub open spec fn along(c: int, a: int) -> int {
    trunc_div(c * a, UNIT_VECTOR as int)
}

/// How far something moving at `v` milli-units per second gets in `dt`
/// nanoseconds, rounded toward zero.
pub open spec fn displacement(v: int, dt: int) -> int {
    trunc_div(v * dt, NANOS_PER_SECOND as int)
}

/// Where a bullet requested by `e` appears.
pub open spec fn spawn_position(e: SpawnBulletEvent, h: Heading) -> Point {
    Point { x: (e.x + along(h.cos as int, e.margin as int)) as i64, y: (e.y + along(h.sin as int, e.margin as int)) as i64 }
}

/// The bullet requested by `e`.
pub open spec fn spawned_bullet(e: SpawnBulletEvent, h: Heading) -> Bullet {
    Bullet { u: along(h.cos as int, e.speed as int) as i64, v: along(h.sin as int, e.speed as int) as i64, radius: BULLET_RADIUS }
}

/// Whether a bullet can be spawned for `e` without leaving the coordinate
/// range.
pub open spec fn spawn_fits(e: SpawnBulletEvent, h: Heading) -> bool {
    &&& i64::MIN <= e.x + along(h.cos as int, e.margin as int) <= i64::MAX
    &&& i64::MIN <= e.y + along(h.sin as int, e.margin as int) <= i64::MAX
}

impl Heading {
    pub open spec fn wf(self) -> bool {
        &&& -UNIT_VECTOR <= self.cos <= UNIT_VECTOR
        &&& -UNIT_VECTOR <= self.sin <= UNIT_VECTOR
    }
}

proof fn lemma_along_bounds(c: int, a: int)
    requires
        -UNIT_VECTOR <= c <= UNIT_VECTOR,
        0 <= a,
    ensures
        -a <= along(c, a) <= a,
{
    if c >= 0 {
        assert(0 <= c * a <= UNIT_VECTOR * a) by (nonlinear_arith)
            requires 0 <= c <= UNIT_VECTOR, 0 <= a;
    } else {
        assert(0 <= (-c) * a <= UNIT_VECTOR * a) by (nonlinear_arith)
            requires 0 < -c <= UNIT_VECTOR, 0 <= a;
        assert((-c) * a == -(c * a)) by (nonlinear_arith);
    }
}

/// Scales a length by a unit-vector component.
fn scale_along(c: i32, a: u32) -> (r: i64)
    requires
        -UNIT_VECTOR <= c <= UNIT_VECTOR,
    ensures
        r == along(c as int, a as int),
        -(a as int) <= r <= a,
{
    proof {
        lemma_along_bounds(c as int, a as int);
        assert(-0x10_0000_0000_0000 <= c * a <= 0x10_0000_0000_0000) by (nonlinear_arith)
            requires -UNIT_VECTOR <= c <= UNIT_VECTOR, 0 <= a <= 0xffff_ffff;
    }
    (c as i64 * a as i64) / UNIT_VECTOR
}

/// Whether `spawn_bullet` can place the bullet that `event` requests.
pub fn can_spawn(event: &SpawnBulletEvent, heading: Heading) -> (r: bool)
    requires
        heading.wf(),
    ensures
        r == spawn_fits(*event, heading),
{
    let x = event.x as i128 + scale_along(heading.cos, event.margin) as i128;
    let y = event.y as i128 + scale_along(heading.sin, event.margin) as i128;
    i64::MIN as i128 <= x && x <= i64::MAX as i128 && i64::MIN as i128 <= y && y <= i64::MAX as i128
}

/// Puts a requested bullet into play: it appears `margin` ahead of the
/// request's origin along `heading` and moves along `heading` at the
/// requested speed. `heading` must hold the cosine and sine of `event.angle`,
/// in millionths: the bullet then flies along the requested angle.
pub fn spawn_bullet(event: &SpawnBulletEvent, heading: Heading) -> (r: (Point, Bullet))
    requires
        heading.wf(),
        spawn_fits(*event, heading),
    ensures
        r.0 == spawn_position(*event, heading),
        r.1 == spawned_bullet(*event, heading),
{
    let x = event.x + scale_along(heading.cos, event.margin);
    let y = event.y + scale_along(heading.sin, event.margin);
    let u = scale_along(heading.cos, event.speed);
    let v = scale_along(heading.sin, event.speed);
    (Point { x, y }, Bullet { u, v, radius: BULLET_RADIUS })
}

/// Whether a bullet at `pos` can move for `dt` nanoseconds without leaving the
/// coordinate range.
pub open spec fn move_fits(pos: Point, bullet: Bullet, dt: u64) -> bool {
    &&& i64::MIN <= pos.x + displacement(bullet.u as int, dt as int) <= i64::MAX
    &&& i64::MIN <= pos.y + displacement(bullet.v as int, dt as int) <= i64::MAX
}

/// How far velocity `v` carries in `dt` nanoseconds.
fn step(v: i64, dt: u64) -> (r: i128)
    ensures
        r == displacement(v as int, dt as int),
        -0x10_0000_0000_0000_0000_0000_0000 <= r <= 0x10_0000_0000_0000_0000_0000_0000,
{
    proof {
        assert(-0x8000_0000_0000_0000 * 0xffff_ffff_ffff_ffff <= v * dt <= 0x7fff_ffff_ffff_ffff * 0xffff_ffff_ffff_ffff)
            by (nonlinear_arith)
            requires i64::MIN <= v <= i64::MAX, 0 <= dt <= u64::MAX;
    }
    (v as i128 * dt as i128) / NANOS_PER_SECOND
}

/// Whether `update_bullet` can move a bullet at `pos` for `dt` nanoseconds.
pub fn can_move(pos: Point, bullet: &Bullet, dt: u64) -> (r: bool)
    ensures
        r == move_fits(pos, *bullet, dt),
{
    let x = pos.x as i128 + step(bullet.u, dt);
    let y = pos.y as i128 + step(bullet.v, dt);
    i64::MIN as i128 <= x && x <= i64::MAX as i128 && i64::MIN as i128 <= y && y <= i64::MAX as i128
}

/// Moves a bullet at constant velocity for `dt` nanoseconds.
pub fn update_bullet(pos: &mut Point, bullet: &Bullet, dt: u64)
    requires
        move_fits(*old(pos), *bullet, dt),
    ensures
        final(pos).x == old(pos).x + displacement(bullet.u as int, dt as int),
        final(pos).y == old(pos).y + displacement(bullet.v as int, dt as int),
{
    let dx = step(bullet.u, dt);
    let dy = step(bullet.v, dt);
    pos.x = (pos.x as i128 + dx) as i64;
    pos.y = (pos.y as i128 + dy) as i64;
}

} // verus!
