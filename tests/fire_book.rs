use danmaku::fire_book::{FireBook, FireBookEntry};
use danmaku::logo::{update_logo, Logo, LONG_STEP, SHORT_STEP};
use danmaku::pattern::{Pattern, Point, SpawnBulletEvent, FAN_MARGIN};

fn fan(count: u16) -> Pattern {
    Pattern::FanSpread { count, speed: 1, spread: 2 }
}

#[test]
fn book_waits_until_entry_ends() {
    let list = vec![
        FireBookEntry { pattern: Some(fan(1)), duration: 10 },
        FireBookEntry { pattern: Some(fan(2)), duration: 20 },
    ];
    let mut book = FireBook::new(list);
    assert!(book.tick(9).is_empty());
    assert_eq!(book.index, 0);
    assert_eq!(book.tick(1), vec![fan(2)]);
    assert_eq!(book.index, 1);
    assert_eq!(book.timer.duration, 20);
}

#[test]
fn book_wait_entry_fires_nothing() {
    let list = vec![
        FireBookEntry { pattern: Some(fan(1)), duration: 5 },
        FireBookEntry { pattern: None, duration: 5 },
    ];
    let mut book = FireBook::new(list);
    assert!(book.tick(5).is_empty());
    assert_eq!(book.index, 1);
    assert_eq!(book.tick(5), vec![fan(1)]);
    assert_eq!(book.index, 0);
}

#[test]
fn book_cycles_back_to_start() {
    let list = vec![
        FireBookEntry { pattern: Some(fan(1)), duration: 3 },
        FireBookEntry { pattern: Some(fan(2)), duration: 4 },
        FireBookEntry { pattern: Some(fan(3)), duration: 5 },
    ];
    let mut book = FireBook::new(list);
    for _round in 0..3 {
        let mut out = Vec::new();
        for d in [3u64, 4, 5] {
            out.push(book.tick(d));
        }
        assert_eq!(out, vec![vec![fan(2)], vec![fan(3)], vec![fan(1)]]);
        assert_eq!(book.index, 0);
        assert_eq!(book.timer.elapsed, 0);
        assert_eq!(book.timer.duration, 3);
    }
}

#[test]
fn book_advances_once_per_oversized_tick() {
    let list = vec![
        FireBookEntry { pattern: Some(fan(1)), duration: 1 },
        FireBookEntry { pattern: Some(fan(2)), duration: 1 },
        FireBookEntry { pattern: Some(fan(3)), duration: 1 },
    ];
    let mut book = FireBook::new(list);
    assert_eq!(book.tick(100), vec![fan(2)]);
    assert_eq!(book.index, 1);
}

#[test]
fn logo_playlist_has_four_phases() {
    let logo = Logo::new();
    let list = &logo.fire_book.list;
    assert_eq!(list.len(), 35);
    assert_eq!(list[0].pattern, Some(Pattern::FanSpread { count: 3, speed: 200_000, spread: 5_000_000 }));
    assert_eq!(list[0].duration, SHORT_STEP);
    assert_eq!(list[13].pattern, Some(Pattern::RadialBurst { count: 20, base_angle: 15_000_000, speed: 50_000 }));
    assert_eq!(list[13].duration, LONG_STEP);
    assert_eq!(list[24].pattern, Some(Pattern::FanSpread { count: 9, speed: 100_000, spread: 5_000_000 }));
    assert_eq!(list[34].pattern, Some(Pattern::RadialBurst { count: 20, base_angle: -45_000_000, speed: 50_000 }));
    assert_eq!(logo.fire_book.index, 0);
    assert_eq!(logo.fire_book.timer.duration, SHORT_STEP);
}

#[test]
fn logo_first_fan_fires_at_hundred_ms() {
    let mut logo = Logo::new();
    let mut events: Vec<SpawnBulletEvent> = Vec::new();
    let origin = Point { x: 0, y: 250_000 };
    update_logo(&mut logo, 60_000_000, origin, Some(-90_000_000), &mut events);
    assert!(events.is_empty());
    update_logo(&mut logo, 40_000_000, origin, Some(-90_000_000), &mut events);
    assert_eq!(logo.fire_book.index, 1);
    let angles: Vec<i64> = events.iter().map(|e| e.angle).collect();
    assert_eq!(angles, vec![-92_500_000, -90_000_000, -87_500_000]);
    for e in &events {
        assert_eq!((e.x, e.y, e.speed, e.margin), (0, 250_000, 200_000, FAN_MARGIN));
    }
}

#[test]
fn logo_without_target_advances_silently() {
    let mut logo = Logo::new();
    let mut events: Vec<SpawnBulletEvent> = Vec::new();
    update_logo(&mut logo, SHORT_STEP, Point { x: 0, y: 0 }, None, &mut events);
    assert!(events.is_empty());
    assert_eq!(logo.fire_book.index, 1);
}

#[test]
fn logo_full_cycle_returns_to_start() {
    let mut logo = Logo::new();
    let mut events: Vec<SpawnBulletEvent> = Vec::new();
    let durations: Vec<u64> = logo.fire_book.list.iter().map(|e| e.duration).collect();
    let mut fired = 0;
    for d in durations {
        let before = events.len();
        update_logo(&mut logo, d, Point { x: 0, y: 0 }, Some(0), &mut events);
        if events.len() > before {
            fired += 1;
        }
    }
    assert_eq!(fired, 35);
    assert_eq!(logo.fire_book.index, 0);
    assert_eq!(events.len(), 9 * 3 + 10 * 20 + (5 + 6 + 7 + 8 + 9) + 10 * 20 + 3);
}

#[test]
fn logo_enters_above_centre() {
    let (logo, at) = danmaku::logo::spawn_logo();
    assert_eq!(at, Point { x: 0, y: 250_000 });
    assert_eq!(logo.fire_book.index, 0);
    assert_eq!(logo.fire_book.list.len(), 35);
}
