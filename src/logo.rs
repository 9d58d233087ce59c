use vstd::prelude::*;

use crate::fire_book::{book_step, FireBook, FireBookEntry};
use crate::pattern::{expand, expansion, Pattern, Point, SpawnBulletEvent, DEGREE};
use crate::timer::Timer;

verus! {

/// Length of a fast aimed step, in nanoseconds (100 ms).
pub const SHORT_STEP: u64 = 100_000_000;

/// Length of every other step, in nanoseconds (500 ms).
pub const LONG_STEP: u64 = 500_000_000;

/// The emitter: it owns the playlist that decides when and what it fires.
#[derive(Debug)]
pub struct Logo {
    pub fire_book: FireBook,
}

/// Entry `i` of the emitter's playlist: ten quick three-bullet fans, ten
/// bursts turning by 5 degrees, fans of 5 to 9 bullets, and ten bursts
/// turning the other way.
pub open spec fn logo_entry(i: int) -> FireBookEntry {
    if i < 10 {
        FireBookEntry {
            pattern: Some(Pattern::FanSpread { count: 3, speed: 200_000, spread: 5_000_000 }),
            duration: SHORT_STEP,
        }
    } else if i < 20 {
        FireBookEntry {
            pattern: Some(Pattern::RadialBurst { count: 20, base_angle: ((i - 10) * 5_000_000) as i32, speed: 50_000 }),
            duration: LONG_STEP,
        }
    } else if i < 25 {
        FireBookEntry {
            pattern: Some(Pattern::FanSpread { count: (i - 15) as u16, speed: 100_000, spread: 5_000_000 }),
            duration: LONG_STEP,
        }
    } else {
        FireBookEntry {
            pattern: Some(Pattern::RadialBurst { count: 20, base_angle: (-(i - 25) * 5_000_000) as i32, speed: 50_000 }),
            duration: LONG_STEP,
        }
    }
}

/// The emitter's whole playlist, 35 entries long.
pub open spec fn logo_playlist() -> Seq<FireBookEntry> {
    Seq::new(35, |i: int| logo_entry(i))
}

/// The spawn requests for a list of patterns, one after another.
pub open spec fn expansions(ps: Seq<Pattern>, origin: Point, bearing: int) -> Seq<SpawnBulletEvent>
    decreases ps.len(),
{
    if ps.len() == 0 {
        seq![]
    } else {
        expansions(ps.drop_last(), origin, bearing) + expansion(ps.last(), origin, bearing)
    }
}

impl Logo {
    pub fn new() -> (r: Logo)
        ensures
            r.fire_book.wf(),
            r.fire_book.list@ == logo_playlist(),
            r.fire_book.index == 0,
            r.fire_book.timer == Timer::fresh(SHORT_STEP),
    {
        let mut list: Vec<FireBookEntry> = Vec::new();
        let mut i: usize = 0;
        while i < 10
            invariant
                i <= 10,
                list@ =~= logo_playlist().take(i as int),
            decreases 10 - i,
        {
            list.push(
                FireBookEntry {
                    pattern: Some(Pattern::FanSpread { count: 3, speed: 200_000, spread: 5 * DEGREE as u32 }),
                    duration: SHORT_STEP,
                },
            );
            i = i + 1;
        }
        let mut i: usize = 0;
        while i < 10
            invariant
                i <= 10,
                list@ =~= logo_playlist().take(10 + i),
            decreases 10 - i,
        {
            list.push(
                FireBookEntry {
                    pattern: Some(Pattern::RadialBurst { count: 20, base_angle: (i as i64 * 5 * DEGREE) as i32, speed: 50_000 }),
                    duration: LONG_STEP,
                },
            );
            i = i + 1;
        }
        let mut n: u16 = 5;
        while n < 10
            invariant
                5 <= n <= 10,
                list@ =~= logo_playlist().take(15 + n),
            decreases 10 - n,
        {
            list.push(
                FireBookEntry {
                    pattern: Some(Pattern::FanSpread { count: n, speed: 100_000, spread: 5 * DEGREE as u32 }),
                    duration: LONG_STEP,
                },
            );
            n = n + 1;
        }
        let mut i: usize = 0;
        while i < 10
            invariant
                i <= 10,
                list@ =~= logo_playlist().take(25 + i),
            decreases 10 - i,
        {
            list.push(
                FireBookEntry {
                    pattern: Some(Pattern::RadialBurst { count: 20, base_angle: (0 - i as i64 * 5 * DEGREE) as i32, speed: 50_000 }),
                    duration: LONG_STEP,
                },
            );
            i = i + 1;
        }
        assert(list@ =~= logo_playlist());
        Logo { fire_book: FireBook::new(list) }
    }
}

/// How far above the centre the emitter stands, in milli-units.
pub const LOGO_Y: i64 = 250_000;

/// The emitter as it enters play, at the start of its playlist, and where it
/// stands.
pub fn spawn_logo() -> (r: (Logo, Point))
    ensures
        r.0.fire_book.wf(),
        r.0.fire_book.list@ == logo_playlist(),
        r.0.fire_book.index == 0,
        r.0.fire_book.timer == Timer::fresh(SHORT_STEP),
        r.1 == (Point { x: 0, y: LOGO_Y }),
{
    (Logo::new(), Point { x: 0, y: LOGO_Y })
}

/// One frame of the emitter: advances its playlist by `delta` nanoseconds
/// and queues the spawn requests of whatever it fired, from `origin` toward
/// a target at `target_bearing` (microdegrees). With no target, the playlist
/// still advances but nothing is queued.
pub fn update_logo(
    logo: &mut Logo,
    delta: u64,
    origin: Point,
    target_bearing: Option<i32>,
    events: &mut Vec<SpawnBulletEvent>,
)
    requires
        old(logo).fire_book.wf(),
    ensures
        final(logo).fire_book.wf(),
        final(logo).fire_book.list@ == old(logo).fire_book.list@,
        ({
            let (i, t, f) = book_step(
                old(logo).fire_book.list@,
                old(logo).fire_book.index as int,
                old(logo).fire_book.timer,
                delta,
            );
            &&& final(logo).fire_book.index == i
            &&& final(logo).fire_book.timer == t
            &&& final(events)@ == match target_bearing {
                Some(b) => old(events)@ + expansions(f, origin, b as int),
                None => old(events)@,
            }
        }),
{
    let items = logo.fire_book.tick(delta);
    if let Some(bearing) = target_bearing {
        let ghost start = events@;
        let mut k: usize = 0;
        while k < items.len()
            invariant
                k <= items.len(),
                events@ == start + expansions(items@.take(k as int), origin, bearing as int),
            decreases items.len() - k,
        {
            let mut fired = expand(&items[k], origin, bearing);
            proof {
                assert(items@.take(k + 1).drop_last() =~= items@.take(k as int));
            }
            events.append(&mut fired);
            proof {
                assert(events@ =~= start + expansions(items@.take(k + 1), origin, bearing as int));
            }
            k = k + 1;
        }
        proof {
            assert(items@.take(items.len() as int) =~= items@);
        }
    }
}

} // verus!
