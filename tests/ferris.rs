use danmaku::bullet::{Bullet, BULLET_RADIUS};
use danmaku::ferris::{drop_out_system, hit_test, touches, update_ferris, DropOut, Ferris, FerrisState, DROPOUT_TIME};
use danmaku::pattern::Point;
use danmaku::timer::Timer;

fn bullet_at(x: i64, y: i64) -> (Point, Bullet) {
    (Point { x, y }, Bullet { u: 0, v: 0, radius: BULLET_RADIUS })
}

#[test]
fn ferris_moves_by_keys() {
    let mut pos = Point { x: 0, y: -250_000 };
    update_ferris(&mut pos, true, false, false, false, 1_000_000_000);
    assert_eq!(pos, Point { x: 100_000, y: -250_000 });
    update_ferris(&mut pos, false, true, true, false, 500_000_000);
    assert_eq!(pos, Point { x: 50_000, y: -200_000 });
}

#[test]
fn ferris_opposite_keys_cancel() {
    let mut pos = Point { x: 5, y: 5 };
    update_ferris(&mut pos, true, true, true, true, 1_000_000_000);
    assert_eq!(pos, Point { x: 5, y: 5 });
}

#[test]
fn ferris_diagonal_is_not_normalised() {
    let mut pos = Point { x: 0, y: 0 };
    update_ferris(&mut pos, true, false, false, true, 1_000_000_000);
    assert_eq!(pos, Point { x: 100_000, y: -100_000 });
}

#[test]
fn collision_at_exact_radius_counts() {
    let p = Point { x: 0, y: 0 };
    assert!(touches(p, Point { x: 5_000, y: 0 }, 5_000));
    assert!(touches(p, Point { x: 3_000, y: 4_000 }, 5_000));
    assert!(!touches(p, Point { x: 5_001, y: 0 }, 5_000));
    assert!(!touches(p, Point { x: 3_000, y: 4_001 }, 5_000));
    assert!(!touches(p, Point { x: i64::MAX, y: i64::MIN }, 5_000));
}

#[test]
fn hit_starts_drop_out() {
    let mut f = Ferris::new();
    let bullets = vec![bullet_at(100_000, 0), bullet_at(0, 4_000)];
    hit_test(&mut f, Point { x: 0, y: 0 }, &bullets);
    assert_eq!(f.state, FerrisState::Dropout { timer: Timer::new(DROPOUT_TIME) });
}

#[test]
fn miss_keeps_ferris_normal() {
    let mut f = Ferris::new();
    let bullets = vec![bullet_at(100_000, 0), bullet_at(0, 5_001)];
    hit_test(&mut f, Point { x: 0, y: 0 }, &bullets);
    assert!(f.is_normal());
}

#[test]
fn second_hit_does_not_reset_timer() {
    let mut f = Ferris::new();
    let bullets = vec![bullet_at(0, 0)];
    hit_test(&mut f, Point { x: 0, y: 0 }, &bullets);
    drop_out_system(&mut f, 700_000_000);
    let before = f;
    hit_test(&mut f, Point { x: 0, y: 0 }, &bullets);
    assert_eq!(f, before);
}

#[test]
fn drop_out_removes_once_after_two_seconds() {
    let mut f = Ferris::new();
    hit_test(&mut f, Point { x: 0, y: 0 }, &vec![bullet_at(0, 0)]);
    let a = drop_out_system(&mut f, 1_000_000_000).unwrap();
    assert_eq!(a, DropOut { spin: 10_000_000, remove: false });
    let b = drop_out_system(&mut f, 1_000_000_000).unwrap();
    assert_eq!(b, DropOut { spin: 20_000_000, remove: true });
    let c = drop_out_system(&mut f, 1_000_000_000).unwrap();
    assert!(!c.remove);
}

#[test]
fn drop_out_ignores_normal_ferris() {
    let mut f = Ferris::new();
    assert_eq!(drop_out_system(&mut f, 1_000), None);
    assert!(f.is_normal());
}

#[test]
fn ferris_enters_below_centre() {
    let (f, at) = danmaku::ferris::spawn_ferris();
    assert!(f.is_normal());
    assert_eq!(at, Point { x: 0, y: -250_000 });
}

#[test]
fn ferris_guard_rejects_overflow() {
    let edge = Point { x: i64::MIN, y: 0 };
    assert!(!danmaku::ferris::can_walk(edge, false, true, false, false, 1_000_000_000));
    assert!(danmaku::ferris::can_walk(edge, true, false, false, false, 1_000_000_000));
}
