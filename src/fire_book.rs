use vstd::prelude::*;

use crate::pattern::Pattern;
use crate::timer::{total, Timer};

verus! {

/// One step of a playlist: a pattern to fire (or none, to only wait) and how
/// long the step lasts, in nanoseconds.
#[derive(Clone, Copy, Debug, PartialEq, Eq)]
pub struct FireBookEntry {
    pub pattern: Option<Pattern>,
    pub duration: u64,
}

/// A looping playlist of patterns, advanced by elapsed time.
#[derive(Debug)]
pub struct FireBook {
    pub list: Vec<FireBookEntry>,
    pub index: usize,
    pub timer: Timer,
}

/// What an entry fires when the playlist arrives at it.
pub open spec fn fired(e: FireBookEntry) -> Seq<Pattern> {
    match e.pattern {
        Some(p) => seq![p],
        None => seq![],
    }
}

/// One tick of `dur` nanoseconds on a playlist at `index` with `timer`: the
/// new index, the new timer, and the patterns fired.
pub open spec fn book_step(list: Seq<FireBookEntry>, index: int, timer: Timer, dur: u64) -> (int, Timer, Seq<Pattern>) {
    let t = timer.ticked(dur);
    if t.just_finished {
        let next = (index + 1) % (list.len() as int);
        (next, Timer::fresh(list[next].duration), fired(list[next]))
    } else {
        (index, t, seq![])
    }
}

/// Ticks through `ds` in order: the final index and timer, and what each tick
/// fired.
pub open spec fn run_book(list: Seq<FireBookEntry>, index: int, timer: Timer, ds: Seq<u64>) -> (
    int,
    Timer,
    Seq<Seq<Pattern>>,
)
    decreases ds.len(),
{
    if ds.len() == 0 {
        (index, timer, seq![])
    } else {
        let (i, t, out) = run_book(list, index, timer, ds.drop_last());
        let (i2, t2, f) = book_step(list, i, t, ds.last());
        (i2, t2, out.push(f))
    }
}

/// The durations of a playlist's entries, in order.
pub open spec fn durations(list: Seq<FireBookEntry>) -> Seq<u64> {
    Seq::new(list.len(), |i: int| list[i].duration)
}

impl FireBook {
    /// A playlist is non-empty, every entry lasts a while, and the timer runs
    /// for the current entry's duration.
    pub open spec fn wf(self) -> bool {
        &&& self.list.len() > 0
        &&& forall|i: int| 0 <= i < self.list.len() ==> (#[trigger] self.list[i]).duration > 0
        &&& self.index < self.list.len()
        &&& self.timer.wf()
        &&& self.timer.duration == self.list[self.index as int].duration
    }

    /// Starts a playlist at its first entry.
    pub fn new(list: Vec<FireBookEntry>) -> (r: FireBook)
        requires
            list.len() > 0,
            forall|i: int| 0 <= i < list.len() ==> (#[trigger] list[i]).duration > 0,
        ensures
            r.wf(),
            r.list@ == list@,
            r.index == 0,
            r.timer == Timer::fresh(list@[0].duration),
    {
        let timer = Timer::new(list[0].duration);
        FireBook { list, index: 0, timer }
    }

    /// Advances the playlist by `dur` nanoseconds. When the current entry's
    /// time runs out, moves to the next entry (wrapping round to the first)
    /// and returns what that entry fires.
    pub fn tick(&mut self, dur: u64) -> (r: Vec<Pattern>)
        requires
            old(self).wf(),
        ensures
            final(self).wf(),
            final(self).list@ == old(self).list@,
            ({
                let (i, t, f) = book_step(old(self).list@, old(self).index as int, old(self).timer, dur);
                &&& final(self).index == i
                &&& final(self).timer == t
                &&& r@ == f
            }),
    {
        self.timer.tick(dur);
        if self.timer.just_finished() {
            self.index = (self.index + 1) % self.list.len();
            self.timer = Timer::new(self.list[self.index].duration);
            match self.list[self.index].pattern {
                Some(p) => vec![p],
                None => Vec::new(),
            }
        } else {
            Vec::new()
        }
    }
}

/// `s` written out `k` times in a row.
pub open spec fn repeat<A>(s: Seq<A>, k: nat) -> Seq<A>
    decreases k,
{
    if k == 0 {
        seq![]
    } else {
        repeat(s, (k - 1) as nat) + s
    }
}

/// Ticking through `a` and then `b` is ticking through `a` followed by `b`.
proof fn lemma_run_book_concat(list: Seq<FireBookEntry>, index: int, timer: Timer, a: Seq<u64>, b: Seq<u64>)
    ensures
        ({
            let (i, t, out) = run_book(list, index, timer, a);
            let (i2, t2, out2) = run_book(list, i, t, b);
            run_book(list, index, timer, a + b) == (i2, t2, out + out2)
        }),
    decreases b.len(),
{
    if b.len() == 0 {
        assert(a + b =~= a);
        let (i, t, out) = run_book(list, index, timer, a);
        assert(out + seq![] =~= out);
    } else {
        lemma_run_book_concat(list, index, timer, a, b.drop_last());
        assert((a + b).drop_last() =~= a + b.drop_last());
        let (i, t, out) = run_book(list, index, timer, a);
        let (i1, t1, out1) = run_book(list, i, t, b.drop_last());
        let (i2, t2, f) = book_step(list, i1, t1, b.last());
        assert(out + out1.push(f) =~= (out + out1).push(f));
    }
}

/// Any number of rounds through every entry's duration, from the first
/// entry, ends at the first entry with a fresh timer and fires the same
/// round's patterns over and over.
pub proof fn lemma_fire_book_rounds(list: Seq<FireBookEntry>, k: nat)
    requires
        list.len() > 0,
    ensures
        ({
            let (i, t, out) = run_book(list, 0, Timer::fresh(list[0].duration), repeat(durations(list), k));
            &&& i == 0
            &&& t == Timer::fresh(list[0].duration)
            &&& out == repeat(Seq::new(list.len(), |m: int| fired(list[(m + 1) % (list.len() as int)])), k)
        }),
    decreases k,
{
    if k > 0 {
        lemma_fire_book_rounds(list, (k - 1) as nat);
        lemma_run_book_concat(
            list,
            0,
            Timer::fresh(list[0].duration),
            repeat(durations(list), (k - 1) as nat),
            durations(list),
        );
        lemma_fire_book_cycle(list);
    }
}

/// Starting at the first entry, ticking through every entry's duration in
/// order brings the playlist back to its first entry with a fresh timer, the
/// very state it started in, so the next round fires the same again. On the
/// way, tick `m` fires what entry `m + 1` holds (the last tick: entry 0).
pub proof fn lemma_fire_book_cycle(list: Seq<FireBookEntry>)
    requires
        list.len() > 0,
    ensures
        ({
            let (i, t, out) = run_book(list, 0, Timer::fresh(list[0].duration), durations(list));
            &&& i == 0
            &&& t == Timer::fresh(list[0].duration)
            &&& out == Seq::new(list.len(), |m: int| fired(list[(m + 1) % (list.len() as int)]))
        }),
{
    let n = list.len() as int;
    lemma_fire_book_prefix(list, n);
    assert(durations(list).take(n) =~= durations(list));
    let (i, t, out) = run_book(list, 0, Timer::fresh(list[0].duration), durations(list));
    assert(out =~= Seq::new(list.len(), |m: int| fired(list[(m + 1) % n])));
}

proof fn lemma_fire_book_prefix(list: Seq<FireBookEntry>, j: int)
    requires
        list.len() > 0,
        0 <= j <= list.len(),
    ensures
        ({
            let (i, t, out) = run_book(list, 0, Timer::fresh(list[0].duration), durations(list).take(j));
            &&& i == j % (list.len() as int)
            &&& t == Timer::fresh(list[j % (list.len() as int)].duration)
            &&& out =~= Seq::new(j as nat, |m: int| fired(list[(m + 1) % (list.len() as int)]))
        }),
    decreases j,
{
    let n = list.len() as int;
    if j > 0 {
        lemma_fire_book_prefix(list, j - 1);
        assert(durations(list).take(j).drop_last() =~= durations(list).take(j - 1));
        vstd::arithmetic::div_mod::lemma_small_mod((j - 1) as nat, n as nat);
    }
}

/// Tick `j` of the lengths `ds`, from a playlist at `index` whose entry has
/// just started: the new index, the new timer, and what the tick fires.
pub open spec fn book_tick_at(list: Seq<FireBookEntry>, index: int, ds: Seq<u64>, j: int) -> (int, Timer, Seq<Pattern>) {
    let (i, t, out) = run_book(list, index, Timer::fresh(list[index].duration), ds.take(j));
    book_step(list, i, t, ds[j])
}

proof fn lemma_total_step(ds: Seq<u64>, m: int)
    requires
        0 <= m < ds.len(),
    ensures
        total(ds.take(m + 1)) == total(ds.take(m)) + ds[m],
        total(ds.take(m + 1)) <= total(ds),
        total(ds.take(m)) >= 0,
{
    assert(ds.take(m + 1).drop_last() =~= ds.take(m));
    crate::timer::lemma_total_monotone(ds, m + 1, ds.len() as int);
    crate::timer::lemma_total_monotone(ds, 0, m);
    assert(ds.take(ds.len() as int) =~= ds);
    assert(ds.take(0) =~= Seq::<u64>::empty());
}

/// Where a playlist stands after the first `m` of the lengths `ds`, which add
/// up to the current entry's duration.
proof fn lemma_book_prefix_state(list: Seq<FireBookEntry>, index: int, ds: Seq<u64>, m: int)
    requires
        list.len() > 0,
        forall|k: int| 0 <= k < list.len() ==> (#[trigger] list[k]).duration > 0,
        0 <= index < list.len(),
        total(ds) == list[index].duration,
        0 <= m <= ds.len(),
    ensures
        ({
            let d = list[index].duration;
            let next = (index + 1) % (list.len() as int);
            let (i, t, out) = run_book(list, index, Timer::fresh(d), ds.take(m));
            &&& total(ds.take(m)) < d ==> i == index && t == (Timer {
                duration: d,
                elapsed: total(ds.take(m)) as u64,
                finished: false,
                just_finished: false,
            })
            &&& total(ds.take(m)) >= d ==> i == next && t == Timer::fresh(list[next].duration) && total(ds.take(m)) == d
        }),
    decreases m,
{
    let d = list[index].duration;
    let n = list.len() as int;
    if m == 0 {
        assert(ds.take(0) =~= Seq::<u64>::empty());
    } else {
        lemma_book_prefix_state(list, index, ds, m - 1);
        lemma_total_step(ds, m - 1);
        assert(ds.take(m).drop_last() =~= ds.take(m - 1));
        assert(ds.take(m).last() == ds[m - 1]);
        let next = (index + 1) % n;
        assert(0 <= next < n);
        assert(list[next].duration > 0);
    }
}

/// A playlist whose current entry has just started, ticked through lengths
/// that add up to that entry's duration, moves on exactly once: on the first
/// tick at which the running sum reaches the duration. That tick moves to the
/// next entry (wrapping round) and fires what it holds; every other tick
/// fires nothing and leaves the index as it was before it.
pub proof fn lemma_fire_book_advances_once(list: Seq<FireBookEntry>, index: int, ds: Seq<u64>)
    requires
        list.len() > 0,
        forall|k: int| 0 <= k < list.len() ==> (#[trigger] list[k]).duration > 0,
        0 <= index < list.len(),
        total(ds) == list[index].duration,
    ensures
        forall|j: int|
            0 <= j < ds.len() ==> {
                let d = list[index].duration;
                let next = (index + 1) % (list.len() as int);
                let first = total(ds.take(j + 1)) >= d && (j == 0 || total(ds.take(j)) < d);
                let (i, t, f) = #[trigger] book_tick_at(list, index, ds, j);
                &&& f == (if first { fired(list[next]) } else { seq![] })
                &&& i == (if total(ds.take(j + 1)) >= d { next } else { index })
            },
{
    assert forall|j: int| 0 <= j < ds.len() implies {
        let d = list[index].duration;
        let next = (index + 1) % (list.len() as int);
        let first = total(ds.take(j + 1)) >= d && (j == 0 || total(ds.take(j)) < d);
        let (i, t, f) = #[trigger] book_tick_at(list, index, ds, j);
        &&& f == (if first { fired(list[next]) } else { seq![] })
        &&& i == (if total(ds.take(j + 1)) >= d { next } else { index })
    } by {
        lemma_book_prefix_state(list, index, ds, j);
        lemma_total_step(ds, j);
        let next = (index + 1) % (list.len() as int);
        assert(list[next].duration > 0);
        if j == 0 {
            assert(ds.take(0) =~= Seq::<u64>::empty());
        }
    }
}

} // verus!
