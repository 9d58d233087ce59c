use danmaku::pattern::{expand, Pattern, Point, BURST_MARGIN, DEGREE, FAN_MARGIN, FULL_TURN};

#[test]
fn fan_of_three_is_centred_on_bearing() {
    let p = Pattern::FanSpread { count: 3, speed: 200_000, spread: 5_000_000 };
    let cmds = expand(&p, Point { x: 0, y: 250_000 }, -90_000_000);
    let angles: Vec<i64> = cmds.iter().map(|c| c.angle).collect();
    assert_eq!(angles, vec![-92_500_000, -90_000_000, -87_500_000]);
    assert_eq!(angles[2] - angles[0], 5_000_000);
    for c in &cmds {
        assert_eq!(c.speed, 200_000);
        assert_eq!(c.margin, FAN_MARGIN);
        assert_eq!((c.x, c.y), (0, 250_000));
    }
}

#[test]
fn fan_of_one_flies_at_bearing() {
    let p = Pattern::FanSpread { count: 1, speed: 7, spread: 5 * DEGREE as u32 };
    let cmds = expand(&p, Point { x: 3, y: 4 }, 12_345);
    assert_eq!(cmds.len(), 1);
    assert_eq!(cmds[0].angle, 12_345);
}

#[test]
fn fan_of_even_count_is_symmetric() {
    let p = Pattern::FanSpread { count: 4, speed: 1, spread: 6_000 };
    let cmds = expand(&p, Point { x: 0, y: 0 }, 100);
    let angles: Vec<i64> = cmds.iter().map(|c| c.angle).collect();
    assert_eq!(angles, vec![-2_900, -900, 1_100, 3_100]);
    for i in 0..4 {
        assert_eq!(angles[i] - 100, -(angles[3 - i] - 100));
    }
}

#[test]
fn fan_rounds_toward_bearing() {
    let p = Pattern::FanSpread { count: 4, speed: 1, spread: 3 };
    let cmds = expand(&p, Point { x: 0, y: 0 }, 100);
    let angles: Vec<i64> = cmds.iter().map(|c| c.angle).collect();
    assert_eq!(angles, vec![99, 100, 100, 101]);
}

#[test]
fn fan_of_two_spans_spread() {
    let p = Pattern::FanSpread { count: 2, speed: 1, spread: 10 };
    let cmds = expand(&p, Point { x: 0, y: 0 }, 0);
    let angles: Vec<i64> = cmds.iter().map(|c| c.angle).collect();
    assert_eq!(angles, vec![-5, 5]);
}

#[test]
fn fan_of_zero_fires_nothing() {
    let p = Pattern::FanSpread { count: 0, speed: 1, spread: 3 };
    assert!(expand(&p, Point { x: 0, y: 0 }, 0).is_empty());
}

#[test]
fn burst_covers_full_circle() {
    let p = Pattern::RadialBurst { count: 20, base_angle: 10_000_000, speed: 50_000 };
    let cmds = expand(&p, Point { x: 1, y: 2 }, 0);
    assert_eq!(cmds.len(), 20);
    for (i, c) in cmds.iter().enumerate() {
        assert_eq!(c.angle, 10_000_000 + i as i64 * 18_000_000);
        assert_eq!(c.speed, 50_000);
        assert_eq!(c.margin, BURST_MARGIN);
    }
    assert_eq!(10_000_000 + FULL_TURN - cmds[19].angle, 18_000_000);
}

#[test]
fn burst_ignores_bearing() {
    let p = Pattern::RadialBurst { count: 3, base_angle: -5, speed: 1 };
    let a = expand(&p, Point { x: 0, y: 0 }, 0);
    let b = expand(&p, Point { x: 0, y: 0 }, 77_000_000);
    assert_eq!(a, b);
    let angles: Vec<i64> = a.iter().map(|c| c.angle).collect();
    assert_eq!(angles, vec![-5, 119_999_995, 239_999_995]);
}

#[test]
fn burst_rounds_uneven_shares_down() {
    let p = Pattern::RadialBurst { count: 7, base_angle: 0, speed: 1 };
    let cmds = expand(&p, Point { x: 0, y: 0 }, 0);
    assert_eq!(cmds[1].angle, 51_428_571);
    assert_eq!(cmds[6].angle, 308_571_428);
}
