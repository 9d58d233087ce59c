use danmaku::timer::Timer;

#[test]
fn timer_fires_once_on_exact_sum() {
    let mut t = Timer::new(100);
    let ticks = [30u64, 30, 40, 0, 10];
    let mut fired = Vec::new();
    for d in ticks {
        t.tick(d);
        fired.push(t.just_finished());
    }
    assert_eq!(fired, vec![false, false, true, false, false]);
    assert!(t.finished());
    assert_eq!(t.remaining(), 0);
}

#[test]
fn timer_clamps_overshoot() {
    let mut t = Timer::new(100);
    t.tick(250);
    assert!(t.just_finished());
    assert_eq!(t.elapsed, 100);
    assert_eq!(t.remaining(), 0);
}

#[test]
fn timer_counts_partial_progress() {
    let mut t = Timer::new(1_000);
    t.tick(400);
    assert!(!t.just_finished());
    assert!(!t.finished());
    assert_eq!(t.elapsed, 400);
    assert_eq!(t.remaining(), 600);
}

#[test]
fn timer_zero_duration_finishes_on_first_tick() {
    let mut t = Timer::new(0);
    assert!(!t.finished());
    t.tick(0);
    assert!(t.just_finished());
    t.tick(0);
    assert!(!t.just_finished());
}

#[test]
fn timer_reset_starts_over() {
    let mut t = Timer::new(10);
    t.tick(10);
    assert!(t.finished());
    t.reset(20);
    assert!(!t.finished());
    assert_eq!(t.remaining(), 20);
    t.tick(20);
    assert!(t.just_finished());
}
