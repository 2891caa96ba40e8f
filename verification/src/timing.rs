//! What holds of the counters of a wave and of the scheduler over any run
//! of ticks: how many units have been spawned, when they were, and where the
//! scheduler ends.

use crate::waves::{SchedulerState, SchedulerView, Wave, WaveStatsView};
use vstd::prelude::*;

verus! {

/// The time that the ticks of `ticks` take together.
pub open spec fn total(ticks: Seq<nat>) -> nat
    decreases ticks.len(),
{
    if ticks.len() == 0 {
        0
    } else {
        total(ticks.drop_last()) + ticks.last()
    }
}

/// No tick of `ticks` is longer than `quantum`.
pub open spec fn within(ticks: Seq<nat>, quantum: nat) -> bool {
    forall|i: int| 0 <= i < ticks.len() ==> #[trigger] ticks[i] <= quantum
}

impl WaveStatsView {
    /// The counters after the ticks of `ticks`, one after the other.
    pub open spec fn run(self, ticks: Seq<nat>) -> Self
        decreases ticks.len(),
    {
        if ticks.len() == 0 {
            self
        } else {
            self.run(ticks.drop_last()).tick(ticks.last())
        }
    }

    /// By how much a tick of `elapsed` that spawns a unit goes beyond the
    /// interval: the time that the spawn is late by, and that is dropped
    /// when the interval starts again. Zero for a tick without a spawn.
    pub open spec fn overshoot(self, elapsed: nat) -> nat {
        if self.fires(elapsed) {
            (self.interval_elapsed + elapsed - self.interval_target) as nat
        } else {
            0
        }
    }

    /// The time that the spawns of `ticks` are late by, all together.
    pub open spec fn lateness(self, ticks: Seq<nat>) -> nat
        decreases ticks.len(),
    {
        if ticks.len() == 0 {
            0
        } else {
            self.lateness(ticks.drop_last()) + self.run(ticks.drop_last()).overshoot(ticks.last())
        }
    }

    /// The time that had passed when the tick began on which the pause
    /// ended; meaningful once the pause is over. The interval counts from
    /// there, as that tick goes to the interval in full.
    pub open spec fn pause_end(self, ticks: Seq<nat>) -> nat
        decreases ticks.len(),
    {
        if ticks.len() == 0 {
            0
        } else if self.run(ticks.drop_last()).delay_done() {
            self.pause_end(ticks.drop_last())
        } else {
            total(ticks.drop_last())
        }
    }

    /// How many of the ticks of `ticks` spawn a unit.
    pub open spec fn spawned(self, ticks: Seq<nat>) -> nat
        decreases ticks.len(),
    {
        if ticks.len() == 0 {
            0
        } else {
            let before = self.spawned(ticks.drop_last());
            if self.run(ticks.drop_last()).fires(ticks.last()) {
                before + 1
            } else {
                before
            }
        }
    }
}

/// A tick keeps the counters within their targets and leaves the targets
/// alone.
pub proof fn lemma_tick_keeps_wf(s: WaveStatsView, elapsed: nat)
    requires
        s.wf(),
    ensures
        s.tick(elapsed).wf(),
        s.tick(elapsed).delay_target == s.delay_target,
        s.tick(elapsed).interval_target == s.interval_target,
{
}

/// A spawn takes exactly one unit from those that remain, and needs one to
/// take; a tick without a spawn takes none.
pub proof fn lemma_tick_counts(s: WaveStatsView, elapsed: nat)
    ensures
        s.fires(elapsed) ==> s.remaining >= 1 && s.tick(elapsed).remaining == s.remaining - 1,
        !s.fires(elapsed) ==> s.tick(elapsed).remaining == s.remaining,
{
}

/// Over any run of ticks, the units that remain and the units spawned add up
/// to the units that remained at its start: a wave of `n` units is exhausted
/// exactly when `n` have been spawned, and never spawns more.
pub proof fn lemma_run_counts(s: WaveStatsView, ticks: Seq<nat>)
    ensures
        s.run(ticks).remaining + s.spawned(ticks) == s.remaining,
        s.run(ticks).exhausted() <==> s.spawned(ticks) == s.remaining,
    decreases ticks.len(),
{
    if ticks.len() > 0 {
        lemma_run_counts(s, ticks.drop_last());
        lemma_tick_counts(s.run(ticks.drop_last()), ticks.last());
    }
}

/// What holds of a wave that started fresh, as long as it was not exhausted
/// before the last tick: while the pause lasts, the pause counter is the
/// time that has passed; after it, the interval counts from the end of the
/// pause plus one interval and its overshoot for every spawn.
proof fn lemma_run_anchor(delay: nat, interval: nat, units: nat, ticks: Seq<nat>, quantum: nat)
    requires
        interval > 0,
        within(ticks, quantum),
        ticks.len() > 0 ==> !WaveStatsView::fresh(delay, interval, units).run(
            ticks.drop_last(),
        ).exhausted(),
    ensures
        ({
            let start = WaveStatsView::fresh(delay, interval, units);
            let s = start.run(ticks);
            let count = start.spawned(ticks);
            let late = start.lateness(ticks);
            let from = start.pause_end(ticks);
            &&& s.wf()
            &&& s.delay_target == delay
            &&& s.interval_target == interval
            &&& !s.delay_done() ==> s.delay_elapsed == total(ticks) && s.interval_elapsed == 0
                && count == 0 && late == 0
            &&& s.delay_done() ==> total(ticks) - s.interval_elapsed == from + count * interval
                + late
            &&& s.delay_done() ==> delay - quantum <= from <= delay
            &&& late <= count * quantum
            &&& count >= 1 ==> late < count * quantum
        }),
    decreases ticks.len(),
{
    let start = WaveStatsView::fresh(delay, interval, units);
    if ticks.len() == 0 {
        assert(0 * interval == 0 && 0 * quantum == 0) by (nonlinear_arith);
    } else {
        let pre = ticks.drop_last();
        let c0 = start.spawned(pre);
        if pre.len() > 0 {
            lemma_run_counts(start, pre);
            lemma_run_counts(start, pre.drop_last());
            lemma_tick_counts(start.run(pre.drop_last()), pre.last());
        }
        lemma_run_anchor(delay, interval, units, pre, quantum);
        assert((c0 + 1) * interval == c0 * interval + interval && (c0 + 1) * quantum == c0
            * quantum + quantum) by (nonlinear_arith);
    }
}

/// When a wave spawns.
///
/// Take a wave that starts fresh with a pause of `delay` and an interval of
/// `interval`, and ticks none of which is longer than `quantum`. If the last
/// of the ticks spawns the wave's `k`-th unit, the time that has passed by
/// then is the end of the pause, `k` intervals, and the time that the `k`
/// spawns were late by. The pause ends up to one tick before `delay`: the
/// tick that ends it counts for the first interval in full. Every spawn is
/// late by less than one tick.
pub proof fn lemma_spawn_time(delay: nat, interval: nat, units: nat, ticks: Seq<nat>, quantum: nat)
    requires
        interval > 0,
        within(ticks, quantum),
        ticks.len() > 0,
        WaveStatsView::fresh(delay, interval, units).run(ticks.drop_last()).fires(ticks.last()),
    ensures
        ({
            let start = WaveStatsView::fresh(delay, interval, units);
            let k = start.spawned(ticks);
            let late = start.lateness(ticks);
            let from = start.pause_end(ticks);
            &&& 1 <= k <= units
            &&& total(ticks) == from + k * interval + late
            &&& delay - quantum <= from <= delay
            &&& late < k * quantum
        }),
{
    let start = WaveStatsView::fresh(delay, interval, units);
    lemma_run_anchor(delay, interval, units, ticks, quantum);
    lemma_run_counts(start, ticks);
}

/// A spawn comes within one tick of its time.
///
/// With the wave and the ticks of `lemma_spawn_time`: the `k`-th spawn comes
/// no more than one tick before `delay + k * interval`; and no more than one
/// tick after it, as long as the spawns up to it were not late, all
/// together, by more than one tick on top of the time that the pause ended
/// early by.
pub proof fn lemma_spawn_within_one_tick(
    delay: nat,
    interval: nat,
    units: nat,
    ticks: Seq<nat>,
    quantum: nat,
)
    requires
        interval > 0,
        within(ticks, quantum),
        ticks.len() > 0,
        WaveStatsView::fresh(delay, interval, units).run(ticks.drop_last()).fires(ticks.last()),
        WaveStatsView::fresh(delay, interval, units).lateness(ticks) + WaveStatsView::fresh(
            delay,
            interval,
            units,
        ).pause_end(ticks) <= delay + quantum,
    ensures
        ({
            let k = WaveStatsView::fresh(delay, interval, units).spawned(ticks);
            delay + k * interval - quantum <= total(ticks) <= delay + k * interval + quantum
        }),
{
    lemma_spawn_time(delay, interval, units, ticks, quantum);
}

/// The first spawn of a wave always comes within one tick of its time.
pub proof fn lemma_first_spawn_within_one_tick(
    delay: nat,
    interval: nat,
    units: nat,
    ticks: Seq<nat>,
    quantum: nat,
)
    requires
        interval > 0,
        within(ticks, quantum),
        ticks.len() > 0,
        WaveStatsView::fresh(delay, interval, units).run(ticks.drop_last()).fires(ticks.last()),
        WaveStatsView::fresh(delay, interval, units).spawned(ticks) == 1,
    ensures
        delay + interval - quantum <= total(ticks) < delay + interval + quantum,
{
    lemma_spawn_time(delay, interval, units, ticks, quantum);
    assert(1 * quantum == quantum && 1 * interval == interval) by (nonlinear_arith);
}

impl SchedulerView {
    /// The scheduler after one frame for each tick of `ticks`.
    pub open spec fn play(self, ticks: Seq<nat>) -> Self
        decreases ticks.len(),
    {
        if ticks.len() == 0 {
            self
        } else {
            self.play(ticks.drop_last()).frame(ticks.last())
        }
    }

    /// How many units the frames of `ticks` release.
    pub open spec fn released(self, ticks: Seq<nat>) -> nat
        decreases ticks.len(),
    {
        if ticks.len() == 0 {
            0
        } else {
            let before = self.released(ticks.drop_last());
            if self.play(ticks.drop_last()).spawns(ticks.last()) {
                before + 1
            } else {
                before
            }
        }
    }
}

/// Whatever is done to a scheduler, the cursor stays within the list, every
/// wave can run, and the counters are those of the active wave.
pub proof fn lemma_scheduler_keeps_wf(s: SchedulerView, elapsed: nat, wave: Wave)
    requires
        s.wf(),
    ensures
        s.tick(elapsed).wf(),
        s.advance().wf(),
        s.frame(elapsed).wf(),
        wave.valid() ==> s.push(wave).wf(),
{
    lemma_tick_keeps_wf(s.stats, elapsed);
}

/// Ticks, advances and frames leave the list of waves as it is, and the
/// cursor only moves on: a tick leaves it alone, an advance or a frame moves
/// it by one wave at most, and a run of frames never moves it back.
pub proof fn lemma_cursor_moves_on(s: SchedulerView, elapsed: nat, ticks: Seq<nat>)
    ensures
        s.tick(elapsed).waves == s.waves,
        s.advance().waves.list == s.waves.list,
        s.waves.current <= s.advance().waves.current <= s.waves.current + 1,
        s.frame(elapsed).waves.list == s.waves.list,
        s.waves.current <= s.frame(elapsed).waves.current <= s.waves.current + 1,
        s.play(ticks).waves.list == s.waves.list,
        s.waves.current <= s.play(ticks).waves.current,
    decreases ticks.len(),
{
    if ticks.len() > 0 {
        lemma_cursor_moves_on(s, elapsed, ticks.drop_last());
        lemma_cursor_moves_on(s.play(ticks.drop_last()), ticks.last(), Seq::empty());
    }
}

/// As long as every wave has a unit to spawn, a frame never leaves the
/// scheduler with an exhausted wave: the frame that spawns the last unit of
/// a wave moves on to the next.
pub proof fn lemma_frame_moves_past_exhausted(s: SchedulerView, elapsed: nat)
    requires
        s.wf(),
        forall|i: int| 0 <= i < s.waves.list.len() ==> (#[trigger] s.waves.list[i]).unit_count > 0,
    ensures
        s.frame(elapsed).state() != SchedulerState::Exhausted,
{
}

/// A spawn of the scheduler takes exactly one unit from those that remain of
/// the active wave; a tick without a spawn takes none.
pub proof fn lemma_spawn_takes_one(s: SchedulerView, elapsed: nat)
    ensures
        s.spawns(elapsed) ==> s.stats.remaining >= 1 && s.tick(elapsed).stats.remaining
            == s.stats.remaining - 1,
        !s.spawns(elapsed) ==> s.tick(elapsed).stats.remaining == s.stats.remaining,
        s.spawns(elapsed) && s.stats.remaining == 1 ==> s.tick(elapsed).state()
            == SchedulerState::Exhausted,
{
}

/// After the last wave the scheduler is idle.
pub proof fn lemma_last_wave_ends_idle(s: SchedulerView)
    requires
        s.waves.current + 1 == s.waves.list.len(),
    ensures
        s.advance().state() == SchedulerState::Idle,
{
}

/// An idle scheduler stays as it is and never spawns again, whatever time
/// passes and however often it is asked to advance.
pub proof fn lemma_idle_is_final(s: SchedulerView, ticks: Seq<nat>)
    requires
        s.state() == SchedulerState::Idle,
    ensures
        s.advance() == s,
        forall|elapsed: nat| #[trigger] s.tick(elapsed) == s && !s.spawns(elapsed),
        s.play(ticks) == s,
        s.released(ticks) == 0,
    decreases ticks.len(),
{
    if ticks.len() > 0 {
        lemma_idle_is_final(s, ticks.drop_last());
    }
}

} // verus!
