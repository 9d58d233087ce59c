use danmaku::bullet::{spawn_bullet, update_bullet, Bullet, Heading, BULLET_RADIUS};
use danmaku::pattern::{Point, SpawnBulletEvent};

#[test]
fn bullet_spawns_ahead_of_origin() {
    let e = SpawnBulletEvent { x: 0, y: 250_000, angle: -90_000_000, speed: 200_000, margin: 50_000 };
    let (pos, b) = spawn_bullet(&e, Heading { cos: 0, sin: -1_000_000 });
    assert_eq!(pos, Point { x: 0, y: 200_000 });
    assert_eq!(b, Bullet { u: 0, v: -200_000, radius: BULLET_RADIUS });
}

#[test]
fn bullet_spawn_scales_diagonal() {
    let e = SpawnBulletEvent { x: 10, y: 20, angle: 45_000_000, speed: 1_000, margin: 100_000 };
    let (pos, b) = spawn_bullet(&e, Heading { cos: 707_107, sin: -707_107 });
    assert_eq!(pos, Point { x: 10 + 70_710, y: 20 - 70_710 });
    assert_eq!((b.u, b.v), (707, -707));
}

#[test]
fn bullet_moves_at_constant_velocity() {
    let b = Bullet { u: 200_000, v: -50_000, radius: BULLET_RADIUS };
    let mut pos = Point { x: 0, y: 0 };
    update_bullet(&mut pos, &b, 500_000_000);
    assert_eq!(pos, Point { x: 100_000, y: -25_000 });
    update_bullet(&mut pos, &b, 0);
    assert_eq!(pos, Point { x: 100_000, y: -25_000 });
}

#[test]
fn bullet_movement_rounds_toward_zero() {
    let b = Bullet { u: 3, v: -3, radius: 1 };
    let mut pos = Point { x: 0, y: 0 };
    update_bullet(&mut pos, &b, 500_000_000);
    assert_eq!(pos, Point { x: 1, y: -1 });
}

#[test]
fn bullet_guards_reject_overflow() {
    let e = SpawnBulletEvent { x: i64::MAX - 10, y: 0, angle: 0, speed: 1, margin: 100 };
    assert!(!danmaku::bullet::can_spawn(&e, Heading { cos: 1_000_000, sin: 0 }));
    assert!(danmaku::bullet::can_spawn(&e, Heading { cos: -1_000_000, sin: 0 }));
    let b = Bullet { u: 1_000, v: 0, radius: 1 };
    assert!(!danmaku::bullet::can_move(Point { x: i64::MAX, y: 0 }, &b, 1_000_000_000));
    assert!(danmaku::bullet::can_move(Point { x: i64::MAX - 1_000, y: 0 }, &b, 1_000_000_000));
}
