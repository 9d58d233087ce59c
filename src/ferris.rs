use vstd::prelude::*;

use crate::bullet::{displacement, Bullet};
use crate::pattern::Point;
use crate::timer::{run_timer, total, Timer};

verus! {

/// How fast the player moves along each axis, in milli-units per second.
pub const FERRIS_SPEED: i64 = 100_000;

/// How long the player spins after being hit before leaving play, in
/// nanoseconds (2 s).
pub const DROPOUT_TIME: u64 = 2_000_000_000;

/// Where the player stands in its life: in play, or hit and spinning out.
#[derive(Clone, Copy, Debug, PartialEq, Eq)]
pub enum FerrisState {
    Normal,
    Dropout { timer: Timer },
}

/// The player.
#[derive(Clone, Copy, Debug, PartialEq, Eq)]
pub struct Ferris {
    pub state: FerrisState,
}

/// The message that the player has taken damage.
#[derive(Clone, Copy, Debug, PartialEq, Eq, Default)]
pub struct FerrisDamageEvent;

/// What the host shows of a player that is spinning out: its rotation, in
/// microradians, and whether it leaves play now.
#[derive(Clone, Copy, Debug, PartialEq, Eq)]
pub struct DropOut {
    pub spin: u64,
    pub remove: bool,
}

/// The player's velocity along one axis when the key toward `plus` and the
/// key toward `minus` are held as given.
pub open spec fn axis_velocity(plus: bool, minus: bool) -> int {
    if plus && !minus {
        FERRIS_SPEED as int
    } else if !plus && minus {
        -FERRIS_SPEED
    } else {
        0
    }
}

/// Whether `p` lies within `radius` of `q`.
pub open spec fn within(p: Point, q: Point, radius: int) -> bool {
    (p.x - q.x) * (p.x - q.x) + (p.y - q.y) * (p.y - q.y) <= radius * radius
}

/// Whether some bullet touches the player at `pos`.
pub open spec fn any_hit(pos: Point, bullets: Seq<(Point, Bullet)>) -> bool {
    exists|i: int| 0 <= i < bullets.len() && within(pos, (#[trigger] bullets[i]).0, bullets[i].1.radius as int)
}

/// The player's state after the collision check.
pub open spec fn after_hits(state: FerrisState, pos: Point, bullets: Seq<(Point, Bullet)>) -> FerrisState {
    match state {
        FerrisState::Normal => if any_hit(pos, bullets) {
            FerrisState::Dropout { timer: Timer::fresh(DROPOUT_TIME) }
        } else {
            FerrisState::Normal
        },
        FerrisState::Dropout { timer } => FerrisState::Dropout { timer },
    }
}

/// One tick of `dt` nanoseconds of the spin-out: the player afterwards, and
/// what the host is to show (nothing for a player in play).
pub open spec fn drop_out_step(f: Ferris, dt: u64) -> (Ferris, Option<DropOut>) {
    match f.state {
        FerrisState::Normal => (f, None),
        FerrisState::Dropout { timer } => {
            let t = timer.ticked(dt);
            (
                Ferris { state: FerrisState::Dropout { timer: t } },
                Some(DropOut { spin: t.elapsed / 100, remove: t.just_finished }),
            )
        },
    }
}

/// The player after spin-out ticks of the lengths in `ds`, in order.
pub open spec fn run_drop_out(f: Ferris, ds: Seq<u64>) -> Ferris
    decreases ds.len(),
{
    if ds.len() == 0 {
        f
    } else {
        drop_out_step(run_drop_out(f, ds.drop_last()), ds.last()).0
    }
}

/// Whether tick `j` of the spin-out ticks `ds` removes the player.
pub open spec fn removed_at(f: Ferris, ds: Seq<u64>, j: int) -> bool {
    match drop_out_step(run_drop_out(f, ds.take(j)), ds[j]).1 {
        Some(o) => o.remove,
        None => false,
    }
}

impl Ferris {
    pub open spec fn wf(self) -> bool {
        match self.state {
            FerrisState::Normal => true,
            FerrisState::Dropout { timer } => timer.wf() && timer.duration == DROPOUT_TIME,
        }
    }

    /// A player in play.
    pub fn new() -> (r: Ferris)
        ensures
            r.state == FerrisState::Normal,
            r.wf(),
    {
        Ferris { state: FerrisState::Normal }
    }

    pub fn is_normal(&self) -> (r: bool)
        ensures
            r == (self.state == FerrisState::Normal),
    {
        match self.state {
            FerrisState::Normal => true,
            FerrisState::Dropout { .. } => false,
        }
    }
}

/// How far below the centre the player enters play, in milli-units.
pub const FERRIS_START_Y: i64 = -250_000;

/// The player as it enters play, and where it stands.
pub fn spawn_ferris() -> (r: (Ferris, Point))
    ensures
        r.0.state == FerrisState::Normal,
        r.0.wf(),
        r.1 == (Point { x: 0, y: FERRIS_START_Y }),
{
    (Ferris::new(), Point { x: 0, y: FERRIS_START_Y })
}

/// Whether the player at `pos` can move for `dt` nanoseconds with the given
/// keys without leaving the coordinate range.
pub open spec fn walk_fits(pos: Point, right: bool, left: bool, up: bool, down: bool, dt: u64) -> bool {
    &&& i64::MIN <= pos.x + displacement(axis_velocity(right, left), dt as int) <= i64::MAX
    &&& i64::MIN <= pos.y + displacement(axis_velocity(up, down), dt as int) <= i64::MAX
}

/// The velocity along one axis for the keys held.
fn axis_speed(plus: bool, minus: bool) -> (r: i64)
    ensures
        r == axis_velocity(plus, minus),
{
    if plus && !minus {
        FERRIS_SPEED
    } else if !plus && minus {
        -FERRIS_SPEED
    } else {
        0
    }
}

/// How far velocity `v` (at most the player's speed) carries in `dt`
/// nanoseconds.
fn walk_step(v: i64, dt: u64) -> (r: i64)
    requires
        -FERRIS_SPEED <= v <= FERRIS_SPEED,
    ensures
        r == displacement(v as int, dt as int),
{
    proof {
        assert(-FERRIS_SPEED * 0xffff_ffff_ffff_ffff <= v * dt <= FERRIS_SPEED * 0xffff_ffff_ffff_ffff)
            by (nonlinear_arith)
            requires -FERRIS_SPEED <= v <= FERRIS_SPEED, 0 <= dt <= u64::MAX;
    }
    ((v as i128 * dt as i128) / 1_000_000_000i128) as i64
}

/// Whether `update_ferris` can move the player at `pos` with the given keys
/// for `dt` nanoseconds.
pub fn can_walk(pos: Point, right: bool, left: bool, up: bool, down: bool, dt: u64) -> (r: bool)
    ensures
        r == walk_fits(pos, right, left, up, down, dt),
{
    let x = pos.x as i128 + walk_step(axis_speed(right, left), dt) as i128;
    let y = pos.y as i128 + walk_step(axis_speed(up, down), dt) as i128;
    i64::MIN as i128 <= x && x <= i64::MAX as i128 && i64::MIN as i128 <= y && y <= i64::MAX as i128
}

/// Moves the player by the arrow keys held: each axis independently, at
/// full speed toward a single held key and not at all when both or neither
/// are held.
pub fn update_ferris(pos: &mut Point, right: bool, left: bool, up: bool, down: bool, dt: u64)
    requires
        walk_fits(*old(pos), right, left, up, down, dt),
    ensures
        final(pos).x == old(pos).x + displacement(axis_velocity(right, left), dt as int),
        final(pos).y == old(pos).y + displacement(axis_velocity(up, down), dt as int),
{
    let u = axis_speed(right, left);
    let v = axis_speed(up, down);
    let dx = walk_step(u, dt);
    let dy = walk_step(v, dt);
    pos.x = pos.x + dx;
    pos.y = pos.y + dy;
}

/// Whether a bullet at `bullet_pos` with collision radius `radius` touches the
/// player at `pos`: a bullet exactly `radius` away counts.
pub fn touches(pos: Point, bullet_pos: Point, radius: u32) -> (r: bool)
    ensures
        r == within(pos, bullet_pos, radius as int),
{
    let dx: i128 = pos.x as i128 - bullet_pos.x as i128;
    let dy: i128 = pos.y as i128 - bullet_pos.y as i128;
    let r: i128 = radius as i128;
    if dx > r || dx < -r || dy > r || dy < -r {
        proof {
            assert(dx * dx > r * r || dy * dy > r * r) by (nonlinear_arith)
                requires dx > r || dx < -r || dy > r || dy < -r, r >= 0;
            assert(dx * dx >= 0 && dy * dy >= 0) by (nonlinear_arith);
        }
        false
    } else {
        proof {
            assert(dx * dx <= r * r && dy * dy <= r * r && r * r <= 0xffff_ffff * 0xffff_ffff) by (nonlinear_arith)
                requires -r <= dx <= r, -r <= dy <= r, 0 <= r <= 0xffff_ffff;
            assert(dx * dx >= 0 && dy * dy >= 0) by (nonlinear_arith);
        }
        dx * dx + dy * dy <= r * r
    }
}

/// Checks the player at `pos` against every bullet: a player in play that
/// some bullet touches is hit and starts spinning out for two seconds; a
/// player already spinning out is left as it is.
pub fn hit_test(ferris: &mut Ferris, pos: Point, bullets: &Vec<(Point, Bullet)>)
    requires
        old(ferris).wf(),
    ensures
        final(ferris).wf(),
        final(ferris).state == after_hits(old(ferris).state, pos, bullets@),
{
    if !ferris.is_normal() {
        return;
    }
    let mut i: usize = 0;
    while i < bullets.len()
        invariant
            i <= bullets.len(),
            ferris.state == FerrisState::Normal,
            old(ferris).state == FerrisState::Normal,
            forall|j: int| 0 <= j < i ==> !within(pos, (#[trigger] bullets@[j]).0, bullets@[j].1.radius as int),
        decreases bullets.len() - i,
    {
        let (bullet_pos, bullet) = bullets[i];
        if touches(pos, bullet_pos, bullet.radius) {
            ferris.state = FerrisState::Dropout { timer: Timer::new(DROPOUT_TIME) };
            proof {
                assert(bullets@[i as int] == (bullet_pos, bullet));
                assert(within(pos, bullets@[i as int].0, bullets@[i as int].1.radius as int));
                assert(any_hit(pos, bullets@));
            }
            return;
        }
        i = i + 1;
    }
}

/// Advances a player that is spinning out by `dt` nanoseconds: it turns at
/// ten radians per second and leaves play on the tick at which two seconds
/// have passed. A player in play is left as it is, with nothing to show.
pub fn drop_out_system(ferris: &mut Ferris, dt: u64) -> (r: Option<DropOut>)
    requires
        old(ferris).wf(),
    ensures
        final(ferris).wf(),
        (*final(ferris), r) == drop_out_step(*old(ferris), dt),
        match old(ferris).state {
            FerrisState::Normal => final(ferris).state == FerrisState::Normal && r.is_none(),
            FerrisState::Dropout { timer } => {
                let t = timer.ticked(dt);
                &&& final(ferris).state == (FerrisState::Dropout { timer: t })
                &&& r == Some(DropOut { spin: t.elapsed / 100, remove: t.just_finished })
            },
        },
{
    match ferris.state {
        FerrisState::Normal => None,
        FerrisState::Dropout { timer } => {
            let mut t = timer;
            t.tick(dt);
            ferris.state = FerrisState::Dropout { timer: t };
            Some(DropOut { spin: t.elapsed / 100, remove: t.just_finished() })
        },
    }
}

/// A bullet exactly its radius away from the player touches it; one a single
/// milli-unit farther away along the same line does not.
pub proof fn lemma_collision_threshold(pos: Point, radius: u32)
    requires
        pos.x + radius + 1 <= i64::MAX,
    ensures
        within(pos, Point { x: (pos.x + radius) as i64, y: pos.y }, radius as int),
        !within(pos, Point { x: (pos.x + radius + 1) as i64, y: pos.y }, radius as int),
{
    let r = radius as int;
    assert((r + 1) * (r + 1) > r * r) by (nonlinear_arith)
        requires r >= 0;
    assert((-(r + 1)) * (-(r + 1)) == (r + 1) * (r + 1)) by (nonlinear_arith);
    assert((-r) * (-r) == r * r) by (nonlinear_arith);
    assert(0int * 0int == 0);
    let q = Point { x: (pos.x + radius) as i64, y: pos.y };
    assert(pos.x - q.x == -r);
    assert(pos.y - q.y == 0);
}

/// Once hit, a player stays as it is whatever bullets touch it: the spin-out
/// timer is neither restarted nor replaced.
pub proof fn lemma_hit_is_terminal(timer: Timer, pos: Point, bullets: Seq<(Point, Bullet)>)
    ensures
        after_hits(FerrisState::Dropout { timer }, pos, bullets) == (FerrisState::Dropout { timer }),
{
}

proof fn lemma_run_drop_out(ds: Seq<u64>)
    ensures
        run_drop_out(Ferris { state: FerrisState::Dropout { timer: Timer::fresh(DROPOUT_TIME) } }, ds)
            == (Ferris { state: FerrisState::Dropout { timer: run_timer(Timer::fresh(DROPOUT_TIME), ds) } }),
    decreases ds.len(),
{
    if ds.len() > 0 {
        lemma_run_drop_out(ds.drop_last());
    }
}

/// A player just hit, spun out by ticks whose lengths add up to two seconds,
/// is removed on exactly one tick: the first one at which two seconds have
/// passed.
pub proof fn lemma_removed_once(ds: Seq<u64>)
    requires
        ds.len() > 0,
        total(ds) == DROPOUT_TIME,
    ensures
        ({
            let f = Ferris { state: FerrisState::Dropout { timer: Timer::fresh(DROPOUT_TIME) } };
            &&& forall|j: int|
                0 <= j < ds.len() ==> (#[trigger] removed_at(f, ds, j) <==> (total(ds.take(j + 1)) >= DROPOUT_TIME
                    && (j == 0 || total(ds.take(j)) < DROPOUT_TIME)))
            &&& exists|j: int| 0 <= j < ds.len() && #[trigger] removed_at(f, ds, j)
            &&& forall|j1: int, j2: int|
                0 <= j1 < ds.len() && 0 <= j2 < ds.len() && #[trigger] removed_at(f, ds, j1) && #[trigger] removed_at(
                    f,
                    ds,
                    j2,
                ) ==> j1 == j2
        }),
{
    let f = Ferris { state: FerrisState::Dropout { timer: Timer::fresh(DROPOUT_TIME) } };
    crate::timer::lemma_timer_fires_once(DROPOUT_TIME, ds);
    assert forall|j: int| 0 <= j < ds.len() implies #[trigger] removed_at(f, ds, j) == run_timer(
        Timer::fresh(DROPOUT_TIME),
        ds.take(j + 1),
    ).just_finished by {
        lemma_run_drop_out(ds.take(j));
        assert(ds.take(j + 1).drop_last() =~= ds.take(j));
        assert(ds.take(j + 1).last() == ds[j]);
    }
    let w = choose|j: int| 0 <= j < ds.len() && #[trigger] run_timer(Timer::fresh(DROPOUT_TIME), ds.take(j + 1)).just_finished;
    assert(removed_at(f, ds, w));
}

/// A player just hit, spun out by ticks that add up to less than two
/// seconds, is never removed: it is still spinning out, with exactly that
/// much time elapsed.
pub proof fn lemma_not_removed_early(ds: Seq<u64>)
    requires
        total(ds) < DROPOUT_TIME,
    ensures
        ({
            let f = Ferris { state: FerrisState::Dropout { timer: Timer::fresh(DROPOUT_TIME) } };
            &&& forall|j: int| 0 <= j < ds.len() ==> !#[trigger] removed_at(f, ds, j)
            &&& run_drop_out(f, ds) == (Ferris {
                state: FerrisState::Dropout {
                    timer: Timer { duration: DROPOUT_TIME, elapsed: total(ds) as u64, finished: false, just_finished: false },
                },
            })
        }),
{
    let f = Ferris { state: FerrisState::Dropout { timer: Timer::fresh(DROPOUT_TIME) } };
    assert forall|j: int| 0 <= j < ds.len() implies !#[trigger] removed_at(f, ds, j) by {
        lemma_run_drop_out(ds.take(j));
        assert(ds.take(j + 1).drop_last() =~= ds.take(j));
        assert(ds.take(j + 1).last() == ds[j]);
        crate::timer::lemma_run_timer_state(DROPOUT_TIME, ds.take(j + 1));
        crate::timer::lemma_total_monotone(ds, j + 1, ds.len() as int);
        assert(ds.take(ds.len() as int) =~= ds);
    }
    lemma_run_drop_out(ds);
    crate::timer::lemma_run_timer_state(DROPOUT_TIME, ds);
}

/// One frame for a player at `pos`: the collision check against `bullets`,
/// then a spin-out tick of `dt` nanoseconds.
pub open spec fn frame(f: Ferris, pos: Point, bullets: Seq<(Point, Bullet)>, dt: u64) -> (Ferris, Option<DropOut>) {
    drop_out_step(Ferris { state: after_hits(f.state, pos, bullets) }, dt)
}

/// The player after the frames `steps`, each a tick length, the player's
/// position and the bullets in play.
pub open spec fn run_frames(f: Ferris, steps: Seq<(u64, Point, Seq<(Point, Bullet)>)>) -> Ferris
    decreases steps.len(),
{
    if steps.len() == 0 {
        f
    } else {
        frame(run_frames(f, steps.drop_last()), steps.last().1, steps.last().2, steps.last().0).0
    }
}

/// Whether frame `j` of `steps` removes the player.
pub open spec fn removed_in_frame(f: Ferris, steps: Seq<(u64, Point, Seq<(Point, Bullet)>)>, j: int) -> bool {
    match frame(run_frames(f, steps.take(j)), steps[j].1, steps[j].2, steps[j].0).1 {
        Some(o) => o.remove,
        None => false,
    }
}

/// The tick lengths of a run of frames.
pub open spec fn frame_lengths(steps: Seq<(u64, Point, Seq<(Point, Bullet)>)>) -> Seq<u64> {
    Seq::new(steps.len(), |i: int| steps[i].0)
}

proof fn lemma_run_frames(steps: Seq<(u64, Point, Seq<(Point, Bullet)>)>)
    ensures
        run_frames(Ferris { state: FerrisState::Dropout { timer: Timer::fresh(DROPOUT_TIME) } }, steps)
            == run_drop_out(
            Ferris { state: FerrisState::Dropout { timer: Timer::fresh(DROPOUT_TIME) } },
            frame_lengths(steps),
        ),
        run_frames(Ferris { state: FerrisState::Dropout { timer: Timer::fresh(DROPOUT_TIME) } }, steps).state
            is Dropout,
    decreases steps.len(),
{
    let f = Ferris { state: FerrisState::Dropout { timer: Timer::fresh(DROPOUT_TIME) } };
    if steps.len() > 0 {
        lemma_run_frames(steps.drop_last());
        assert(frame_lengths(steps).drop_last() =~= frame_lengths(steps.drop_last()));
    }
}

/// A player just hit, run through frames whose ticks add up to two seconds,
/// with any bullets touching it along the way, is removed in exactly one
/// frame: the first one at which two seconds have passed. Collisions while
/// spinning out neither restart the two seconds nor remove it twice.
pub proof fn lemma_removed_once_despite_hits(steps: Seq<(u64, Point, Seq<(Point, Bullet)>)>)
    requires
        steps.len() > 0,
        total(frame_lengths(steps)) == DROPOUT_TIME,
    ensures
        ({
            let f = Ferris { state: FerrisState::Dropout { timer: Timer::fresh(DROPOUT_TIME) } };
            let ds = frame_lengths(steps);
            &&& forall|j: int|
                0 <= j < steps.len() ==> (#[trigger] removed_in_frame(f, steps, j) <==> (total(ds.take(j + 1))
                    >= DROPOUT_TIME && (j == 0 || total(ds.take(j)) < DROPOUT_TIME)))
            &&& exists|j: int| 0 <= j < steps.len() && #[trigger] removed_in_frame(f, steps, j)
            &&& forall|j1: int, j2: int|
                0 <= j1 < steps.len() && 0 <= j2 < steps.len() && #[trigger] removed_in_frame(f, steps, j1)
                    && #[trigger] removed_in_frame(f, steps, j2) ==> j1 == j2
        }),
{
    let f = Ferris { state: FerrisState::Dropout { timer: Timer::fresh(DROPOUT_TIME) } };
    let ds = frame_lengths(steps);
    lemma_removed_once(ds);
    assert forall|j: int| 0 <= j < steps.len() implies #[trigger] removed_in_frame(f, steps, j) == removed_at(
        f,
        ds,
        j,
    ) by {
        lemma_run_frames(steps.take(j));
        assert(frame_lengths(steps.take(j)) =~= ds.take(j));
    }
    let w = choose|j: int| 0 <= j < ds.len() && #[trigger] removed_at(f, ds, j);
    assert(removed_in_frame(f, steps, w));
}

} // verus!
