use vstd::prelude::*;

verus! {

/// A one-shot countdown: it runs from zero up to `duration` (nanoseconds),
/// reports completion on exactly one tick, and stays finished until reset.
#[derive(Clone, Copy, Debug, PartialEq, Eq)]
pub struct Timer {
    pub duration: u64,
    pub elapsed: u64,
    pub finished: bool,
    pub just_finished: bool,
}

/// Relies on bevy's `Timer` in `TimerMode::Once` (`new`, `set_elapsed`,
/// `tick`, `elapsed`, `just_finished`): a new timer of `duration` set to
/// `elapsed` and ticked by `delta` ends with its elapsed time clamped at the
/// duration, and reports that it just finished exactly when the duration is
/// reached.
#[verifier::external_body]
fn once_timer_tick(duration: u64, elapsed: u64, delta: u64) -> (r: (u64, bool))
    ensures
        r.1 == (elapsed + delta >= duration),
        r.0 == if elapsed + delta >= duration { duration as int } else { elapsed + delta },
{
    let mut t = bevy::time::Timer::new(
        std::time::Duration::from_nanos(duration),
        bevy::time::TimerMode::Once,
    );
    t.set_elapsed(std::time::Duration::from_nanos(elapsed));
    t.tick(std::time::Duration::from_nanos(delta));
    (t.elapsed().as_nanos() as u64, t.just_finished())
}

impl Timer {
    /// Holds of every timer that `new`, `reset` and `tick` produce.
    pub open spec fn wf(self) -> bool {
        &&& self.elapsed <= self.duration
        &&& self.finished ==> self.elapsed == self.duration
        &&& self.just_finished ==> self.finished
    }

    /// A fresh timer of the given duration.
    pub open spec fn fresh(duration: u64) -> Timer {
        Timer { duration, elapsed: 0, finished: false, just_finished: false }
    }

    /// The timer after one tick of `delta` nanoseconds.
    pub open spec fn ticked(self, delta: u64) -> Timer {
        if self.finished {
            Timer { just_finished: false, ..self }
        } else if self.elapsed + delta >= self.duration {
            Timer { elapsed: self.duration, finished: true, just_finished: true, ..self }
        } else {
            Timer { elapsed: (self.elapsed + delta) as u64, finished: false, just_finished: false, ..self }
        }
    }

    /// Time left before the timer finishes.
    pub open spec fn remaining_spec(self) -> int {
        self.duration - self.elapsed
    }

    pub fn new(duration: u64) -> (r: Timer)
        ensures
            r == Timer::fresh(duration),
            r.wf(),
    {
        Timer { duration, elapsed: 0, finished: false, just_finished: false }
    }

    /// Advances the timer by `delta` nanoseconds.
    pub fn tick(&mut self, delta: u64)
        requires
            old(self).wf(),
        ensures
            *final(self) == old(self).ticked(delta),
            final(self).wf(),
    {
        if self.finished {
            self.just_finished = false;
        } else {
            let (elapsed, done) = once_timer_tick(self.duration, self.elapsed, delta);
            self.elapsed = elapsed;
            self.finished = done;
            self.just_finished = done;
        }
    }

    /// Starts the timer over with a new duration.
    pub fn reset(&mut self, duration: u64)
        ensures
            *final(self) == Timer::fresh(duration),
            final(self).wf(),
    {
        *self = Timer::new(duration);
    }

    pub fn just_finished(&self) -> (r: bool)
        ensures
            r == self.just_finished,
    {
        self.just_finished
    }

    pub fn finished(&self) -> (r: bool)
        ensures
            r == self.finished,
    {
        self.finished
    }

    pub fn remaining(&self) -> (r: u64)
        requires
            self.wf(),
        ensures
            r == self.remaining_spec(),
    {
        self.duration - self.elapsed
    }
}

/// The sum of a sequence of tick lengths.
pub open spec fn total(ds: Seq<u64>) -> int
    decreases ds.len(),
{
    if ds.len() == 0 {
        0
    } else {
        total(ds.drop_last()) + ds.last()
    }
}

/// The timer after ticking through `ds` in order.
pub open spec fn run_timer(t: Timer, ds: Seq<u64>) -> Timer
    decreases ds.len(),
{
    if ds.len() == 0 {
        t
    } else {
        run_timer(t, ds.drop_last()).ticked(ds.last())
    }
}

pub(crate) proof fn lemma_run_timer_state(duration: u64, ds: Seq<u64>)
    ensures
        run_timer(Timer::fresh(duration), ds).duration == duration,
        run_timer(Timer::fresh(duration), ds).finished == (ds.len() > 0 && total(ds) >= duration),
        !run_timer(Timer::fresh(duration), ds).finished ==> run_timer(Timer::fresh(duration), ds).elapsed == total(ds),
        run_timer(Timer::fresh(duration), ds).just_finished == (ds.len() > 0 && total(ds) >= duration
            && (ds.len() == 1 || total(ds.drop_last()) < duration)),
        total(ds) >= 0,
    decreases ds.len(),
{
    if ds.len() > 0 {
        lemma_run_timer_state(duration, ds.drop_last());
    }
}

/// A fresh timer ticked through lengths that add up to its duration reports
/// completion on exactly one tick: the first one at which the running sum
/// reaches the duration.
pub proof fn lemma_timer_fires_once(duration: u64, ds: Seq<u64>)
    requires
        ds.len() > 0,
        total(ds) == duration,
    ensures
        forall|j: int|
            0 <= j < ds.len() ==> (#[trigger] run_timer(Timer::fresh(duration), ds.take(j + 1)).just_finished
                <==> (total(ds.take(j + 1)) >= duration && (j == 0 || total(ds.take(j)) < duration))),
        exists|j: int| 0 <= j < ds.len() && #[trigger] run_timer(Timer::fresh(duration), ds.take(j + 1)).just_finished,
        forall|j1: int, j2: int|
            0 <= j1 < ds.len() && 0 <= j2 < ds.len() && #[trigger] run_timer(Timer::fresh(duration), ds.take(j1 + 1)).just_finished
                && #[trigger] run_timer(Timer::fresh(duration), ds.take(j2 + 1)).just_finished ==> j1 == j2,
{
    assert forall|j: int|
        0 <= j < ds.len() implies (#[trigger] run_timer(Timer::fresh(duration), ds.take(j + 1)).just_finished
            <==> (total(ds.take(j + 1)) >= duration && (j == 0 || total(ds.take(j)) < duration))) by {
        lemma_run_timer_state(duration, ds.take(j + 1));
        assert(ds.take(j + 1).drop_last() =~= ds.take(j));
    }
    assert(ds.take(ds.len() as int) =~= ds);
    lemma_first_reach(duration, ds, ds.len() as int);
    assert forall|j1: int, j2: int|
        0 <= j1 < ds.len() && 0 <= j2 < ds.len() && #[trigger] run_timer(Timer::fresh(duration), ds.take(j1 + 1)).just_finished
            && #[trigger] run_timer(Timer::fresh(duration), ds.take(j2 + 1)).just_finished implies j1 == j2 by {
        if j1 < j2 {
            lemma_total_monotone(ds, j1 + 1, j2);
        } else if j2 < j1 {
            lemma_total_monotone(ds, j2 + 1, j1);
        }
    }
}

/// Longer prefixes of tick lengths add up to at least as much.
pub(crate) proof fn lemma_total_monotone(ds: Seq<u64>, a: int, b: int)
    requires
        0 <= a <= b <= ds.len(),
    ensures
        total(ds.take(a)) <= total(ds.take(b)),
    decreases b - a,
{
    if a < b {
        lemma_total_monotone(ds, a, b - 1);
        assert(ds.take(b).drop_last() =~= ds.take(b - 1));
    }
}

/// Some prefix of length at most `k` is the first to reach `duration`, when
/// the prefix of length `k` does.
proof fn lemma_first_reach(duration: u64, ds: Seq<u64>, k: int)
    requires
        1 <= k <= ds.len(),
        total(ds.take(k)) >= duration,
    ensures
        exists|j: int| 0 <= j < ds.len() && #[trigger] run_timer(Timer::fresh(duration), ds.take(j + 1)).just_finished,
    decreases k,
{
    let j = k - 1;
    lemma_run_timer_state(duration, ds.take(j + 1));
    assert(ds.take(j + 1).drop_last() =~= ds.take(j));
    if j == 0 || total(ds.take(j)) < duration {
        assert(run_timer(Timer::fresh(duration), ds.take(j + 1)).just_finished);
    } else {
        lemma_first_reach(duration, ds, j);
    }
}

} // verus!
