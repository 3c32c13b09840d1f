//! Decisions of the background sweeper.
//!
//! The sweeper sleeps for `interval`, then removes the expired entries, and
//! repeats until asked to stop. It sleeps in short slices, not in one
//! `sleep(interval)`, so that a stop request is seen within one slice. The
//! thread, the sleeping and the stop flag belong to the caller; this module
//! decides, from the time already waited and whether a stop was requested,
//! what comes next. Durations are in nanoseconds.

use vstd::prelude::*;

verus! {

/// Length of one sleep slice: a stop request is seen at least this often.
pub const TICK_NANOS: u64 = 200_000_000;

/// The sleep slices that fill the `left` nanoseconds up to the end of an
/// interval: whole ticks, then the remainder.
pub open spec fn slice_plan(left: nat) -> Seq<u64>
    decreases left,
{
    if left == 0 {
        Seq::empty()
    } else {
        let n: nat = if left < TICK_NANOS { left } else { TICK_NANOS as nat };
        seq![n as u64] + slice_plan((left - n) as nat)
    }
}

/// The total of a sequence of slices.
pub open spec fn total(s: Seq<u64>) -> nat
    decreases s.len(),
{
    if s.len() == 0 {
        0
    } else {
        s[0] as nat + total(s.drop_first())
    }
}

/// The plan fills the time left exactly, in slices of at least one
/// nanosecond and at most one tick.
pub proof fn lemma_plan_fills_interval(left: nat)
    ensures
        total(slice_plan(left)) == left,
        forall|i: int| 0 <= i < slice_plan(left).len() ==> 0 < #[trigger] slice_plan(left)[i] <= TICK_NANOS,
    decreases left,
{
    if left > 0 {
        let n: nat = if left < TICK_NANOS { left } else { TICK_NANOS as nat };
        lemma_plan_fills_interval((left - n) as nat);
        let s = slice_plan(left);
        assert(s.drop_first() =~= slice_plan((left - n) as nat));
        assert forall|i: int| 0 <= i < s.len() implies 0 < #[trigger] s[i] <= TICK_NANOS by {
            if i > 0 {
                assert(s[i] == s.drop_first()[i - 1]);
            }
        }
    }
}

/// What the sweeper does next.
#[derive(Debug, Clone, Copy, PartialEq, Eq)]
pub enum SweepStep {
    /// Return: a stop was requested.
    Stop,
    /// Sleep for this many nanoseconds, then report it with `SweepClock::slept`.
    Sleep(u64),
    /// The interval has elapsed: remove the expired entries, then report it
    /// with `SweepClock::swept`.
    Sweep,
}

/// How long the sweeper has waited since its last sweep, out of `interval`.
#[derive(Debug)]
pub struct SweepClock {
    interval_nanos: u128,
    waited_nanos: u128,
}

impl SweepClock {
    /// The sweep interval.
    pub closed spec fn interval(&self) -> u128 {
        self.interval_nanos
    }

    /// Time slept since the last sweep (or since the start).
    pub closed spec fn waited(&self) -> u128 {
        self.waited_nanos
    }

    /// The sweeper never sleeps past the interval.
    pub open spec fn wf(&self) -> bool {
        self.waited() <= self.interval()
    }

    /// The step that follows when `stop_requested` is observed.
    pub open spec fn step_spec(&self, stop_requested: bool) -> SweepStep {
        if stop_requested {
            SweepStep::Stop
        } else if self.waited() < self.interval() {
            let left = self.interval() - self.waited();
            SweepStep::Sleep(if left < TICK_NANOS { left as u64 } else { TICK_NANOS })
        } else {
            SweepStep::Sweep
        }
    }

    /// A clock for a sweeper that sweeps every `interval_nanos`, nothing waited yet.
    pub fn new(interval_nanos: u128) -> (c: Self)
        ensures
            c.wf(),
            c.interval() == interval_nanos,
            c.waited() == 0,
    {
        SweepClock { interval_nanos, waited_nanos: 0 }
    }

    /// The next step: stop when a stop was requested; otherwise sleep the
    /// rest of the interval in slices of at most `TICK_NANOS`; once the
    /// whole interval has been slept, sweep.
    pub fn next_step(&self, stop_requested: bool) -> (s: SweepStep)
        requires
            self.wf(),
        ensures
            s == self.step_spec(stop_requested),
            s matches SweepStep::Sleep(n) ==> 0 < n <= TICK_NANOS && self.waited() + n
                <= self.interval(),
            s == SweepStep::Sweep ==> self.waited() == self.interval(),
            stop_requested ==> s == SweepStep::Stop,
            !stop_requested && self.waited() < self.interval() ==> s is Sleep,
            !stop_requested && self.waited() >= self.interval() ==> s == SweepStep::Sweep,
    {
        if stop_requested {
            return SweepStep::Stop;
        }
        if self.waited_nanos < self.interval_nanos {
            let left = self.interval_nanos - self.waited_nanos;
            let chunk: u64 = if left < TICK_NANOS as u128 { left as u64 } else { TICK_NANOS };
            SweepStep::Sleep(chunk)
        } else {
            SweepStep::Sweep
        }
    }

    /// Records a slice of `nanos` slept, as `next_step` asked.
    pub fn slept(&mut self, nanos: u64)
        requires
            old(self).wf(),
            old(self).waited() + nanos <= old(self).interval(),
        ensures
            final(self).wf(),
            final(self).interval() == old(self).interval(),
            final(self).waited() == old(self).waited() + nanos,
    {
        self.waited_nanos = self.waited_nanos + nanos as u128;
    }

    /// Records a sweep: the next interval starts.
    pub fn swept(&mut self)
        ensures
            final(self).wf(),
            final(self).interval() == old(self).interval(),
            final(self).waited() == 0,
    {
        self.waited_nanos = 0;
    }

    /// The decision after a `Sweep` step, once the caller knows whether the
    /// cache is still there: sweep it, or stop when it is gone.
    pub fn sweep_or_stop(&self, cache_alive: bool) -> (s: SweepStep)
        ensures
            cache_alive ==> s == SweepStep::Sweep,
            !cache_alive ==> s == SweepStep::Stop,
    {
        if cache_alive {
            SweepStep::Sweep
        } else {
            SweepStep::Stop
        }
    }
}

/// The sweep loop keeps to the plan: while no stop is requested, the slice
/// that `next_step` asks for is the first slice of the plan for the time
/// left in the interval, and once it is slept the rest of that plan is the
/// plan for the time then left. So between two sweeps the sweeper sleeps
/// exactly the interval, one tick at most at a time (`lemma_plan_fills_interval`).
pub proof fn lemma_steps_follow_plan(c: SweepClock)
    requires
        c.wf(),
        c.waited() < c.interval(),
    ensures
        ({
            let left = (c.interval() - c.waited()) as nat;
            let plan = slice_plan(left);
            &&& plan.len() > 0
            &&& c.step_spec(false) == SweepStep::Sleep(plan[0])
            &&& plan.drop_first() == slice_plan((left - plan[0]) as nat)
        }),
{
    let left = (c.interval() - c.waited()) as nat;
    let n: nat = if left < TICK_NANOS { left } else { TICK_NANOS as nat };
    assert(slice_plan(left).drop_first() =~= slice_plan((left - n) as nat));
}

/// Adding a slice at the end adds it to the total.
proof fn lemma_total_push(s: Seq<u64>, x: u64)
    ensures
        total(s.push(x)) == total(s) + x,
    decreases s.len(),
{
    if s.len() > 0 {
        assert(s.push(x)[0] == s[0]);
        assert(s.push(x).drop_first() =~= s.drop_first().push(x));
        lemma_total_push(s.drop_first(), x);
    } else {
        assert(s.push(x).drop_first() =~= Seq::<u64>::empty());
        assert(total(Seq::<u64>::empty()) == 0);
    }
}

/// After the first `k` slices of the plan for `i`, the slices still to come
/// are the plan for the time then left.
proof fn lemma_plan_suffix(i: nat, k: int)
    requires
        0 <= k <= slice_plan(i).len(),
    ensures
        total(slice_plan(i).take(k)) <= i,
        slice_plan(i).skip(k) == slice_plan((i - total(slice_plan(i).take(k))) as nat),
    decreases k,
{
    let plan = slice_plan(i);
    if k == 0 {
        assert(plan.take(0) =~= Seq::<u64>::empty());
        assert(plan.skip(0) =~= plan);
    } else {
        lemma_plan_suffix(i, k - 1);
        let left = (i - total(plan.take(k - 1))) as nat;
        let rest = slice_plan(left);
        assert(rest.len() > 0 && plan[k - 1] == rest[0]) by {
            assert(plan.skip(k - 1)[0] == plan[k - 1]);
        }
        let n: nat = if left < TICK_NANOS { left } else { TICK_NANOS as nat };
        assert(rest.drop_first() =~= slice_plan((left - n) as nat));
        assert(plan.take(k) =~= plan.take(k - 1).push(plan[k - 1]));
        lemma_total_push(plan.take(k - 1), plan[k - 1]);
        assert(plan.skip(k) =~= plan.skip(k - 1).drop_first());
    }
}

/// The sweep loop, step by step: a clock that has slept the first `k`
/// slices of the plan for its interval (and is not asked to stop) next asks
/// for slice `k`; once it has slept them all, it has slept the whole
/// interval and next sweeps. With `slept`, which adds each slice to the time
/// waited, and `swept`, which starts the next interval, the sweeper removes
/// the expired entries once after every full interval, never sleeping more
/// than one tick at a time.
pub proof fn lemma_loop_follows_plan(c: SweepClock, k: int)
    requires
        c.wf(),
        0 <= k <= slice_plan(c.interval() as nat).len(),
        c.waited() == total(slice_plan(c.interval() as nat).take(k)),
    ensures
        ({
            let plan = slice_plan(c.interval() as nat);
            &&& k < plan.len() ==> c.step_spec(false) == SweepStep::Sleep(plan[k])
                && total(plan.take(k + 1)) == c.waited() + plan[k]
            &&& k == plan.len() ==> c.step_spec(false) == SweepStep::Sweep && c.waited()
                == c.interval()
        }),
{
    let i = c.interval() as nat;
    let plan = slice_plan(i);
    lemma_plan_suffix(i, k);
    let left = (i - c.waited()) as nat;
    if k < plan.len() {
        assert(plan.skip(k)[0] == plan[k]);
        assert(plan.take(k + 1) =~= plan.take(k).push(plan[k]));
        lemma_total_push(plan.take(k), plan[k]);
    } else {
        assert(plan.skip(k).len() == 0);
        if left > 0 {
            assert(slice_plan(left).len() > 0);
        }
    }
}

/// A stop request is answered at once: whatever part of the interval has
/// already been slept, a clock asked to stop stops, so the sweeper never
/// sleeps another slice after a stop was requested.
pub proof fn lemma_stop_always_wins(c: SweepClock)
    requires
        c.wf(),
    ensures
        c.step_spec(true) == SweepStep::Stop,
        forall|n: u64| c.step_spec(true) != SweepStep::Sleep(n),
        c.step_spec(true) != SweepStep::Sweep,
{
}

} // verus!
