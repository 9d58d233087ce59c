use vstd::prelude::*;

verus! {

/// One degree, in the library's angle unit (microdegrees).
pub const DEGREE: i64 = 1_000_000;

/// A full turn, in microdegrees.
pub const FULL_TURN: i64 = 360_000_000;

/// How far ahead of the emitter an aimed fan's bullets appear (milli-units).
pub const FAN_MARGIN: u32 = 50_000;

/// How far ahead of the emitter a burst's bullets appear (milli-units).
pub const BURST_MARGIN: u32 = 100_000;

/// A point of the play field, in milli-units.
#[derive(Clone, Copy, Debug, PartialEq, Eq)]
pub struct Point {
    pub x: i64,
    pub y: i64,
}

/// A rule that fires a batch of bullets at once.
/// Angles are in microdegrees, speeds in milli-units per second.
#[derive(Clone, Copy, Debug, PartialEq, Eq)]
pub enum Pattern {
    /// `count` bullets aimed at the target, `spread` apart, centred on the
    /// bearing to the target.
    FanSpread { count: u16, speed: u32, spread: u32 },
    /// `count` bullets evenly spaced round a full circle, starting at
    /// `base_angle`.
    RadialBurst { count: u16, base_angle: i32, speed: u32 },
}

/// A request to put one bullet into play: it starts `margin` ahead of
/// `(x, y)` along `angle` and moves along `angle` at `speed`.
#[derive(Clone, Copy, Debug, PartialEq, Eq)]
pub struct SpawnBulletEvent {
    pub x: i64,
    pub y: i64,
    pub angle: i64,
    pub speed: u32,
    pub margin: u32,
}

impl Pattern {
    pub open spec fn count_spec(self) -> int {
        match self {
            Pattern::FanSpread { count, .. } => count as int,
            Pattern::RadialBurst { count, .. } => count as int,
        }
    }

    pub open spec fn speed_spec(self) -> u32 {
        match self {
            Pattern::FanSpread { speed, .. } => speed,
            Pattern::RadialBurst { speed, .. } => speed,
        }
    }

    pub open spec fn margin_spec(self) -> u32 {
        match self {
            Pattern::FanSpread { .. } => FAN_MARGIN,
            Pattern::RadialBurst { .. } => BURST_MARGIN,
        }
    }
}

/// The offset from the bearing of bullet `i` of an aimed fan, whose first
/// and last bullets lie `spread` apart: `i * spread / (count - 1) - spread / 2`,
/// rounded toward zero so that the fan stays symmetric. A single bullet flies
/// straight at the bearing.
pub open spec fn fan_offset(count: int, spread: int, i: int) -> int {
    let k = 2 * i - (count - 1);
    let d = 2 * (count - 1);
    if count <= 1 {
        0
    } else if k >= 0 {
        (k * spread) / d
    } else {
        -((-k * spread) / d)
    }
}

/// The offset from the base angle of bullet `i` of a burst: `i / count` of a
/// full turn, rounded down.
pub open spec fn burst_offset(count: int, i: int) -> int {
    (i * FULL_TURN) / count
}

/// The angle of bullet `i` of a pattern, for a target at `bearing`.
pub open spec fn bullet_angle(p: Pattern, bearing: int, i: int) -> int {
    match p {
        Pattern::FanSpread { count, spread, .. } => bearing + fan_offset(count as int, spread as int, i),
        Pattern::RadialBurst { count, base_angle, .. } => base_angle + burst_offset(count as int, i),
    }
}

/// The spawn requests that a pattern fires from `origin` at a target lying at
/// `bearing`.
pub open spec fn expansion(p: Pattern, origin: Point, bearing: int) -> Seq<SpawnBulletEvent> {
    Seq::new(
        p.count_spec() as nat,
        |i: int|
            SpawnBulletEvent {
                x: origin.x,
                y: origin.y,
                angle: bullet_angle(p, bearing, i) as i64,
                speed: p.speed_spec(),
                margin: p.margin_spec(),
            },
    )
}

proof fn lemma_fan_offset_bounds(count: int, spread: int, i: int)
    requires
        0 <= i < count <= 0xffff,
        0 <= spread <= 0xffff_ffff,
    ensures
        -0x2_0000_0000_0000 <= fan_offset(count, spread, i) <= 0x2_0000_0000_0000,
{
    let k = 2 * i - (count - 1);
    let d = 2 * (count - 1);
    if count > 1 {
        if k >= 0 {
            let x = k * spread;
            assert(0 <= x <= 0x2_0000 * 0xffff_ffff) by (nonlinear_arith)
                requires 0 <= k <= 0x2_0000, 0 <= spread <= 0xffff_ffff, x == k * spread;
            vstd::arithmetic::div_mod::lemma_div_is_ordered_by_denominator(x, 1, d);
        } else {
            let x = -k * spread;
            assert(0 <= x <= 0x2_0000 * 0xffff_ffff) by (nonlinear_arith)
                requires 0 < -k <= 0x2_0000, 0 <= spread <= 0xffff_ffff, x == -k * spread;
            vstd::arithmetic::div_mod::lemma_div_is_ordered_by_denominator(x, 1, d);
        }
    }
}

proof fn lemma_burst_offset_bounds(count: int, i: int)
    requires
        0 <= i < count,
    ensures
        0 <= burst_offset(count, i) < FULL_TURN,
{
    assert(0 <= i * FULL_TURN < count * FULL_TURN) by (nonlinear_arith)
        requires 0 <= i < count;
    assert((i * FULL_TURN) / count < FULL_TURN) by (nonlinear_arith)
        requires 0 <= i * FULL_TURN < count * FULL_TURN, count > 0;
}

/// The angle of bullet `i` fits the angle type.
proof fn lemma_bullet_angle_bounds(p: Pattern, bearing: int, i: int)
    requires
        i32::MIN <= bearing <= i32::MAX,
        0 <= i < p.count_spec(),
    ensures
        i64::MIN <= bullet_angle(p, bearing, i) <= i64::MAX,
{
    match p {
        Pattern::FanSpread { count, spread, .. } => {
            lemma_fan_offset_bounds(count as int, spread as int, i);
        },
        Pattern::RadialBurst { count, .. } => {
            lemma_burst_offset_bounds(count as int, i);
        },
    }
}

/// When `2 * (count - 1)` divides the spread into parts of `g`, bullet `i`
/// lies exactly `(2i - (count - 1)) * g` from the bearing.
proof fn lemma_fan_offset_exact(count: int, spread: int, g: int, i: int)
    requires
        count > 1,
        spread == 2 * (count - 1) * g,
    ensures
        fan_offset(count, spread, i) == (2 * i - (count - 1)) * g,
{
    let k = 2 * i - (count - 1);
    let d = 2 * (count - 1);
    if k >= 0 {
        assert(k * spread == d * (k * g)) by (nonlinear_arith)
            requires spread == d * g;
        vstd::arithmetic::div_mod::lemma_div_multiples_vanish(k * g, d);
    } else {
        let mk = -k;
        assert(mk * spread == d * (mk * g)) by (nonlinear_arith)
            requires spread == d * g;
        vstd::arithmetic::div_mod::lemma_div_multiples_vanish(mk * g, d);
        assert(mk * g == -(k * g)) by (nonlinear_arith)
            requires mk == -k;
    }
}

/// The outermost bullet of a fan lies half the spread (rounded down) from
/// the bearing.
proof fn lemma_fan_offset_edge(count: int, spread: int)
    requires
        count > 1,
        spread >= 0,
    ensures
        fan_offset(count, spread, count - 1) == spread / 2,
{
    let c = count - 1;
    assert((c * spread) / c == spread) by {
        vstd::arithmetic::div_mod::lemma_div_multiples_vanish(spread, c);
    }
    assert(c * spread >= 0) by (nonlinear_arith)
        requires c > 0, spread >= 0;
    vstd::arithmetic::div_mod::lemma_div_denominator(c * spread, c, 2);
    assert(c * 2 == 2 * c);
}

/// Bullets at mirrored positions of a fan have opposite offsets.
proof fn lemma_fan_offset_mirror(count: int, spread: int, i: int)
    ensures
        fan_offset(count, spread, count - 1 - i) == -fan_offset(count, spread, i),
{
    let k = 2 * i - (count - 1);
    let k2 = 2 * (count - 1 - i) - (count - 1);
    assert(k2 == -k);
    assert(-k2 * spread == k * spread);
    assert(k2 * spread == -k * spread);
    if k == 0 {
        assert(k * spread == 0);
        assert(k2 * spread == 0);
    }
}

/// An aimed fan fires `count` bullets at the pattern's speed, at angles
/// symmetric about the bearing to the target; a single bullet flies straight
/// at the bearing. The first and last bullets lie `spread` apart (one
/// microdegree less for an odd spread). When `2 * (count - 1)` divides the
/// spread, neighbouring bullets lie exactly `spread / (count - 1)` apart.
pub proof fn lemma_fan_symmetry(count: u16, speed: u32, spread: u32, origin: Point, bearing: i32)
    ensures
        ({
            let cmds = expansion(Pattern::FanSpread { count, speed, spread }, origin, bearing as int);
            &&& cmds.len() == count
            &&& forall|i: int| 0 <= i < count ==> (#[trigger] cmds[i]).speed == speed
            &&& forall|i: int|
                0 <= i < count ==> (#[trigger] cmds[i]).angle - bearing == -(cmds[count - 1 - i].angle - bearing)
            &&& count == 1 ==> cmds[0].angle == bearing
            &&& count > 1 ==> cmds[count - 1].angle - cmds[0].angle == (spread as int) - (spread as int) % 2
            &&& count > 1 && (spread as int) % 2 == 0 ==> cmds[count - 1].angle - cmds[0].angle == spread
            &&& count > 1 && (spread as int) % (2 * (count - 1)) == 0 ==> forall|i: int|
                0 <= i < count - 1 ==> cmds[i + 1].angle - (#[trigger] cmds[i]).angle == (spread as int) / ((count - 1) as int)
        }),
{
    let p = Pattern::FanSpread { count, speed, spread };
    let cmds = expansion(p, origin, bearing as int);
    assert forall|i: int| 0 <= i < count implies (#[trigger] cmds[i]).angle == bearing + fan_offset(
        count as int,
        spread as int,
        i,
    ) by {
        lemma_bullet_angle_bounds(p, bearing as int, i);
    }
    assert forall|i: int| 0 <= i < count implies (#[trigger] cmds[i]).angle - bearing == -(cmds[count - 1 - i].angle
        - bearing) by {
        assert(cmds[count - 1 - i].angle == bearing + fan_offset(count as int, spread as int, count - 1 - i));
        lemma_fan_offset_mirror(count as int, spread as int, i);
    }
    if count > 1 {
        let n = count as int;
        assert(cmds[n - 1].angle == bearing + fan_offset(n, spread as int, n - 1));
        assert(cmds[0].angle == bearing + fan_offset(n, spread as int, 0));
        lemma_fan_offset_edge(n, spread as int);
        lemma_fan_offset_mirror(n, spread as int, 0);
        if (spread as int) % (2 * (n - 1)) == 0 {
            let d = 2 * (n - 1);
            let g = (spread as int) / d;
            vstd::arithmetic::div_mod::lemma_fundamental_div_mod(spread as int, d);
            assert(spread as int == d * g);
            assert(spread as int == (n - 1) * (2 * g)) by (nonlinear_arith)
                requires spread as int == d * g, d == 2 * (n - 1);
            vstd::arithmetic::div_mod::lemma_div_multiples_vanish(2 * g, n - 1);
            assert forall|i: int| 0 <= i < count - 1 implies cmds[i + 1].angle - (#[trigger] cmds[i]).angle == (spread as int)
                / ((count - 1) as int) by {
                assert(cmds[i + 1].angle == bearing + fan_offset(n, spread as int, i + 1));
                lemma_fan_offset_exact(n, spread as int, g, i);
                lemma_fan_offset_exact(n, spread as int, g, i + 1);
                assert((2 * (i + 1) - (n - 1)) * g == (2 * i - (n - 1)) * g + 2 * g) by (nonlinear_arith);
            }
        }
    }
}

/// When `n` divides the full turn into shares of `q`, `i / n` of a turn is
/// exactly `i` shares.
proof fn lemma_exact_share(n: int, q: int, i: int)
    requires
        n > 0,
        FULL_TURN == n * q,
    ensures
        (i * FULL_TURN) / n == i * q,
{
    assert(i * FULL_TURN == n * (i * q)) by (nonlinear_arith)
        requires FULL_TURN == n * q;
    vstd::arithmetic::div_mod::lemma_div_multiples_vanish(i * q, n);
}

/// A burst fires `count` bullets at the pattern's speed; bullet `i` flies at
/// the base angle plus `i / count` of a full turn (rounded down), so every
/// angle lies within one turn after the base. When `count` divides the full
/// turn, neighbouring bullets are exactly `FULL_TURN / count` apart, and so
/// are the last and the first, round the circle.
pub proof fn lemma_burst_coverage(count: u16, base_angle: i32, speed: u32, origin: Point, bearing: i32)
    ensures
        ({
            let cmds = expansion(Pattern::RadialBurst { count, base_angle, speed }, origin, bearing as int);
            &&& cmds.len() == count
            &&& forall|i: int|
                0 <= i < count ==> {
                    &&& (#[trigger] cmds[i]).speed == speed
                    &&& cmds[i].angle == base_angle + (i * FULL_TURN) / (count as int)
                    &&& base_angle <= cmds[i].angle < base_angle + FULL_TURN
                }
            &&& (FULL_TURN as int) % (count as int) == 0 ==> forall|i: int|
                0 <= i < count - 1 ==> cmds[i + 1].angle - (#[trigger] cmds[i]).angle == (FULL_TURN as int) / (count as int)
            &&& count > 0 && (FULL_TURN as int) % (count as int) == 0 ==> base_angle + FULL_TURN - cmds[count - 1].angle
                == (FULL_TURN as int) / (count as int)
        }),
{
    let p = Pattern::RadialBurst { count, base_angle, speed };
    let cmds = expansion(p, origin, bearing as int);
    assert forall|i: int| 0 <= i < count implies {
        &&& (#[trigger] cmds[i]).speed == speed
        &&& cmds[i].angle == base_angle + (i * FULL_TURN) / (count as int)
        &&& base_angle <= cmds[i].angle < base_angle + FULL_TURN
    } by {
        lemma_bullet_angle_bounds(p, bearing as int, i);
        lemma_burst_offset_bounds(count as int, i);
    }
    if count > 0 && (FULL_TURN as int) % (count as int) == 0 {
        let n = count as int;
        let q = (FULL_TURN as int) / n;
        vstd::arithmetic::div_mod::lemma_fundamental_div_mod(FULL_TURN as int, n);
        assert(FULL_TURN == n * q);
        assert forall|i: int| 0 <= i < count - 1 implies cmds[i + 1].angle - (#[trigger] cmds[i]).angle == q by {
            assert(cmds[i + 1].angle == base_angle + ((i + 1) * FULL_TURN) / n);
            lemma_exact_share(n, q, i);
            lemma_exact_share(n, q, i + 1);
            assert((i + 1) * q == i * q + q) by (nonlinear_arith);
        }
        assert(cmds[count - 1].angle == base_angle + ((n - 1) * FULL_TURN) / n);
        lemma_exact_share(n, q, n - 1);
        assert((n - 1) * q == n * q - q) by (nonlinear_arith);
    }
}

/// Expands a pattern into its spawn requests, for a target at `bearing`.
pub fn expand(pattern: &Pattern, origin: Point, bearing: i32) -> (r: Vec<SpawnBulletEvent>)
    ensures
        r@ == expansion(*pattern, origin, bearing as int),
{
    let mut r: Vec<SpawnBulletEvent> = Vec::new();
    match *pattern {
        Pattern::FanSpread { count, speed, spread } => {
            let mut i: u16 = 0;
            while i < count
                invariant
                    i <= count,
                    *pattern == (Pattern::FanSpread { count, speed, spread }),
                    r@ =~= expansion(*pattern, origin, bearing as int).take(i as int),
                decreases count - i,
            {
                let k: i64 = 2 * (i as i64) - (count as i64 - 1);
                let offset: i64;
                if count <= 1 {
                    offset = 0;
                } else {
                    let d: u64 = 2 * (count as u64 - 1);
                    if k >= 0 {
                        assert(k * spread <= 0x2_0000 * 0xffff_ffff) by (nonlinear_arith)
                            requires 0 <= k <= 0x2_0000, 0 <= spread <= 0xffff_ffff;
                        offset = ((k as u64 * spread as u64) / d) as i64;
                    } else {
                        assert(-k * spread <= 0x2_0000 * 0xffff_ffff) by (nonlinear_arith)
                            requires 0 <= -k <= 0x2_0000, 0 <= spread <= 0xffff_ffff;
                        offset = -((((-k) as u64 * spread as u64) / d) as i64);
                    }
                }
                proof {
                    lemma_bullet_angle_bounds(*pattern, bearing as int, i as int);
                }
                r.push(SpawnBulletEvent { x: origin.x, y: origin.y, angle: bearing as i64 + offset, speed, margin: FAN_MARGIN });
                i = i + 1;
            }
        },
        Pattern::RadialBurst { count, base_angle, speed } => {
            let mut i: u16 = 0;
            while i < count
                invariant
                    i <= count,
                    *pattern == (Pattern::RadialBurst { count, base_angle, speed }),
                    r@ =~= expansion(*pattern, origin, bearing as int).take(i as int),
                decreases count - i,
            {
                assert(i * FULL_TURN <= 0xffff * FULL_TURN) by (nonlinear_arith)
                    requires 0 <= i <= 0xffff;
                let offset: i64 = ((i as u64 * FULL_TURN as u64) / count as u64) as i64;
                proof {
                    lemma_bullet_angle_bounds(*pattern, bearing as int, i as int);
                }
                r.push(SpawnBulletEvent { x: origin.x, y: origin.y, angle: base_angle as i64 + offset, speed, margin: BURST_MARGIN });
                i = i + 1;
            }
        },
    }
    proof {
        assert(expansion(*pattern, origin, bearing as int).take(pattern.count_spec()) =~= expansion(*pattern, origin, bearing as int));
    }
    r
}

} // verus!
