//! Repeating countdown timers that pace the appearance of new entities.

use vstd::prelude::*;
use vstd::arithmetic::div_mod::{
    lemma_basic_div, lemma_div_is_ordered_by_denominator, lemma_fundamental_div_mod,
    lemma_hoist_over_denominator, lemma_mod_multiples_vanish,
};
use crate::config::{ENEMY_SPAWN_TIME, STAR_SPAWN_TIME};

verus! {

/// A repeating timer: it counts the time that went by since its interval last
/// ended, and how many intervals ended during the latest tick.
#[derive(Clone, Copy, Debug)]
pub struct SpawnTimer {
    interval: u64,
    elapsed: u64,
    completed: u64,
}

/// What a `SpawnTimer` stands for. All times are in microseconds.
pub struct TimerView {
    /// The length of one interval.
    pub interval: nat,
    /// The time since the latest interval ended.
    pub elapsed: nat,
    /// The number of intervals that ended during the latest tick.
    pub completed: nat,
}

impl TimerView {
    /// The interval is positive and the elapsed time lies within it.
    pub open spec fn wf(self) -> bool {
        self.interval > 0 && self.elapsed < self.interval
    }

    /// A timer of the given interval on which no time has gone by.
    pub open spec fn fresh(interval: nat) -> TimerView {
        TimerView { interval, elapsed: 0, completed: 0 }
    }

    /// Whether an interval ended during the latest tick.
    pub open spec fn finished(self) -> bool {
        self.completed > 0
    }

    /// The timer after `dt` more microseconds.
    pub open spec fn ticked(self, dt: nat) -> TimerView {
        TimerView {
            interval: self.interval,
            elapsed: (self.elapsed + dt) % self.interval,
            completed: (self.elapsed + dt) / self.interval,
        }
    }

    /// The timer after one tick for each entry of `dts`, in order.
    pub open spec fn ticked_all(self, dts: Seq<nat>) -> TimerView
        decreases dts.len(),
    {
        if dts.len() == 0 {
            self
        } else {
            self.ticked_all(dts.drop_last()).ticked(dts.last())
        }
    }

    /// The number of intervals that end over the ticks `dts`.
    pub open spec fn completions(self, dts: Seq<nat>) -> nat
        decreases dts.len(),
    {
        if dts.len() == 0 {
            0
        } else {
            self.completions(dts.drop_last()) + self.ticked_all(dts).completed
        }
    }

    /// The number of ticks among `dts` during which an interval ends.
    pub open spec fn firings(self, dts: Seq<nat>) -> nat
        decreases dts.len(),
    {
        if dts.len() == 0 {
            0
        } else {
            self.firings(dts.drop_last()) + if self.ticked_all(dts).finished() {
                1nat
            } else {
                0nat
            }
        }
    }
}

/// The sum of the entries of `dts`.
pub open spec fn total_time(dts: Seq<nat>) -> nat
    decreases dts.len(),
{
    if dts.len() == 0 {
        0
    } else {
        total_time(dts.drop_last()) + dts.last()
    }
}

impl View for SpawnTimer {
    type V = TimerView;

    closed spec fn view(&self) -> TimerView {
        TimerView {
            interval: self.interval as nat,
            elapsed: self.elapsed as nat,
            completed: self.completed as nat,
        }
    }
}

impl SpawnTimer {
    #[verifier::type_invariant]
    spec fn inv(self) -> bool {
        self.interval > 0 && self.elapsed < self.interval
    }

    /// A timer of the given interval, in microseconds, on which no time has
    /// gone by. There is none of interval zero.
    pub fn repeating(interval: u64) -> (r: Option<SpawnTimer>)
        ensures
            r is Some <==> interval > 0,
            r matches Some(timer) ==> timer@ == TimerView::fresh(interval as nat) && timer@.wf(),
    {
        if interval == 0 {
            None
        } else {
            Some(SpawnTimer { interval, elapsed: 0, completed: 0 })
        }
    }

    /// The length of one interval.
    pub fn interval(&self) -> (r: u64)
        ensures
            r == self@.interval,
            self@.wf(),
    {
        proof {
            use_type_invariant(self);
        }
        self.interval
    }

    /// The time since the latest interval ended.
    pub fn elapsed(&self) -> (r: u64)
        ensures
            r == self@.elapsed,
    {
        self.elapsed
    }

    /// The number of intervals that ended during the latest tick.
    pub fn times_finished_this_tick(&self) -> (r: u64)
        ensures
            r == self@.completed,
    {
        self.completed
    }

    /// Whether an interval ended during the latest tick.
    pub fn finished(&self) -> (r: bool)
        ensures
            r == self@.finished(),
    {
        self.completed > 0
    }

    /// Lets `dt` microseconds go by, and returns how many intervals ended in
    /// them. What is left over counts toward the next interval.
    pub fn tick(&mut self, dt: u64) -> (completed: u64)
        ensures
            old(self)@.wf(),
            final(self)@ == old(self)@.ticked(dt as nat),
            final(self)@.wf(),
            completed == final(self)@.completed,
    {
        proof {
            use_type_invariant(&*self);
        }
        let interval: u128 = self.interval as u128;
        let total: u128 = self.elapsed as u128 + dt as u128;
        let quotient: u128 = total / interval;
        let rest: u128 = total % interval;
        proof {
            lemma_fundamental_div_mod(total as int, interval as int);
            if interval == 1 {
                lemma_basic_div(0, 1);
                assert(quotient == total) by (nonlinear_arith)
                    requires
                        quotient == total / interval,
                        interval == 1,
                ;
            } else {
                lemma_div_is_ordered_by_denominator(total as int, 2, interval as int);
            }
        }
        self.elapsed = rest as u64;
        self.completed = quotient as u64;
        quotient as u64
    }
}

/// Paces the stars that appear during play.
#[derive(Clone, Copy, Debug)]
pub struct StarSpawnTimer {
    pub timer: SpawnTimer,
}

/// Paces the enemies that appear during play.
#[derive(Clone, Copy, Debug)]
pub struct EnemySpawnTimer {
    pub timer: SpawnTimer,
}

impl Default for StarSpawnTimer {
    fn default() -> (r: StarSpawnTimer)
        ensures
            r.timer@ == TimerView::fresh(STAR_SPAWN_TIME as nat),
    {
        StarSpawnTimer { timer: SpawnTimer { interval: STAR_SPAWN_TIME, elapsed: 0, completed: 0 } }
    }
}

impl Default for EnemySpawnTimer {
    fn default() -> (r: EnemySpawnTimer)
        ensures
            r.timer@ == TimerView::fresh(ENEMY_SPAWN_TIME as nat),
    {
        EnemySpawnTimer {
            timer: SpawnTimer { interval: ENEMY_SPAWN_TIME, elapsed: 0, completed: 0 },
        }
    }
}

/// Ticking keeps a timer well formed and counts every interval: after any
/// ticks, the time left over is the remainder of all the time that went by,
/// and the number of intervals that ended is its quotient by the interval.
pub proof fn lemma_timer_cadence(timer: TimerView, dts: Seq<nat>)
    requires
        timer.wf(),
    ensures
        timer.ticked_all(dts).wf(),
        timer.ticked_all(dts).interval == timer.interval,
        timer.ticked_all(dts).elapsed == (timer.elapsed + total_time(dts)) % timer.interval,
        timer.completions(dts) == (timer.elapsed + total_time(dts)) / timer.interval,
    decreases dts.len(),
{
    let t = timer.interval as int;
    if dts.len() == 0 {
        lemma_fundamental_div_mod(timer.elapsed as int, t);
        lemma_mod_multiples_vanish(0, timer.elapsed as int, t);
        lemma_basic_div(timer.elapsed as int, t);
    } else {
        lemma_timer_cadence(timer, dts.drop_last());
        let before = (timer.elapsed + total_time(dts.drop_last())) as int;
        let rest = timer.ticked_all(dts.drop_last()).elapsed as int;
        let count = timer.completions(dts.drop_last()) as int;
        let d = dts.last() as int;
        lemma_fundamental_div_mod(before, t);
        lemma_mod_multiples_vanish(count, rest + d, t);
        lemma_hoist_over_denominator(rest + d, count, t as nat);
        assert(t * count + (rest + d) == before + d);
        assert(rest + d + count * t == before + d) by (nonlinear_arith)
            requires
                t * count + (rest + d) == before + d,
        ;
        lemma_fundamental_div_mod(rest + d, t);
        assert((rest + d) / t >= 0 && (rest + d) % t < t) by (nonlinear_arith)
            requires
                rest + d >= 0,
                t > 0,
        ;
    }
}

/// Frames that add up to exactly `k` intervals make a timer without elapsed
/// time complete exactly `k` intervals, and leave it without elapsed time.
pub proof fn lemma_exact_intervals(timer: TimerView, dts: Seq<nat>, k: nat)
    requires
        timer.wf(),
        timer.elapsed == 0,
        total_time(dts) == k * timer.interval,
    ensures
        timer.completions(dts) == k,
        timer.ticked_all(dts).elapsed == 0,
{
    lemma_timer_cadence(timer, dts);
    let t = timer.interval as int;
    lemma_mod_multiples_vanish(k as int, 0, t);
    lemma_hoist_over_denominator(0, k as int, t as nat);
    assert(k * timer.interval == t * k) by (nonlinear_arith)
        requires
            t == timer.interval,
    ;
}

/// Where no frame is longer than the interval, at most one interval ends in
/// a frame: the frames in which the timer fires are as many as the intervals
/// that ended.
pub proof fn lemma_firings_are_completions(timer: TimerView, dts: Seq<nat>)
    requires
        timer.wf(),
        forall|i: int| 0 <= i < dts.len() ==> dts[i] <= timer.interval,
    ensures
        timer.firings(dts) == timer.completions(dts),
    decreases dts.len(),
{
    if dts.len() > 0 {
        lemma_firings_are_completions(timer, dts.drop_last());
        lemma_timer_cadence(timer, dts.drop_last());
        let t = timer.interval as int;
        let sum = (timer.ticked_all(dts.drop_last()).elapsed + dts.last()) as int;
        assert(sum / t <= 1) by (nonlinear_arith)
            requires
                0 <= sum < 2 * t,
        ;
    }
}

/// With frames no longer than the interval that add up to exactly `k`
/// intervals, a timer without elapsed time fires in exactly `k` frames.
pub proof fn lemma_fires_once_per_interval(timer: TimerView, dts: Seq<nat>, k: nat)
    requires
        timer.wf(),
        timer.elapsed == 0,
        forall|i: int| 0 <= i < dts.len() ==> dts[i] <= timer.interval,
        total_time(dts) == k * timer.interval,
    ensures
        timer.firings(dts) == k,
        timer.ticked_all(dts).elapsed == 0,
{
    lemma_firings_are_completions(timer, dts);
    lemma_exact_intervals(timer, dts, k);
}

} // verus!
