//! Waves of units, the counters that time their spawns, and the scheduler
//! that runs one wave after the other.

use crate::error::TdError;
use crate::mobs::{MobBundle, MobKind, MobPath, MobRank, MobStats};
use crate::paths::{highest_index, PathCatalog, Point2D};
use crate::tdcomponents::HP;
use crate::time::Nanos;
use vstd::prelude::*;

verus! {

/// The counters of the active wave, as numbers.
///
/// `delay_elapsed` runs up to `delay_target` once; after that
/// `interval_elapsed` runs up to `interval_target` again and again, and each
/// time it gets there one unit is due.
pub struct WaveStatsView {
    pub delay_elapsed: nat,
    pub delay_target: nat,
    pub interval_elapsed: nat,
    pub interval_target: nat,
    pub remaining: nat,
}

impl WaveStatsView {
    /// The counters are within their targets, and the interval is not zero.
    pub open spec fn wf(self) -> bool {
        &&& self.delay_elapsed <= self.delay_target
        &&& self.interval_elapsed < self.interval_target
    }

    /// The counters of a wave that has just become active.
    pub open spec fn fresh(delay: nat, interval: nat, units: nat) -> Self {
        WaveStatsView {
            delay_elapsed: 0,
            delay_target: delay,
            interval_elapsed: 0,
            interval_target: interval,
            remaining: units,
        }
    }

    /// Every unit of the wave has been spawned.
    pub open spec fn exhausted(self) -> bool {
        self.remaining == 0
    }

    /// The pause before the first spawn is over.
    pub open spec fn delay_done(self) -> bool {
        self.delay_elapsed >= self.delay_target
    }

    /// Whether a tick of `elapsed` spawns a unit: units are left, the pause
    /// is over by the end of the tick, and the interval is reached within it.
    pub open spec fn fires(self, elapsed: nat) -> bool {
        &&& !self.exhausted()
        &&& self.delay_elapsed + elapsed >= self.delay_target
        &&& self.interval_elapsed + elapsed >= self.interval_target
    }

    /// The counters after a tick of `elapsed`.
    ///
    /// An exhausted wave stands still. Otherwise the pause takes the time
    /// first; the interval takes it too on every tick on which the pause is
    /// over; and a spawn sets the interval back to zero and takes one unit.
    pub open spec fn tick(self, elapsed: nat) -> Self {
        if self.exhausted() {
            self
        } else if self.delay_elapsed + elapsed < self.delay_target {
            WaveStatsView { delay_elapsed: self.delay_elapsed + elapsed, ..self }
        } else if self.interval_elapsed + elapsed < self.interval_target {
            WaveStatsView {
                delay_elapsed: self.delay_target,
                interval_elapsed: self.interval_elapsed + elapsed,
                ..self
            }
        } else {
            WaveStatsView {
                delay_elapsed: self.delay_target,
                interval_elapsed: 0,
                remaining: (self.remaining - 1) as nat,
                ..self
            }
        }
    }
}

/// What a wave is built with, besides its path.
#[derive(Clone, Copy, Debug, PartialEq, Eq, Structural)]
pub struct WaveConfig {
    /// The time between two spawns; a wave cannot run with zero.
    pub spawn_interval: Nanos,
    /// The pause before the first spawn is counted.
    pub initial_delay: Nanos,
    /// How many units the wave releases.
    pub unit_count: usize,
    pub kind: MobKind,
    pub stats: MobStats,
    pub rank: MobRank,
}

/// The configuration that `Default` gives: a spawn every 1500 ms after a
/// pause of 1000 ms, ten units of ice, each with ten hit points, one point of
/// armor and a speed of 50.
pub open spec fn default_config() -> WaveConfig {
    WaveConfig {
        spawn_interval: 1_500_000_000,
        initial_delay: 1_000_000_000,
        unit_count: 10,
        kind: MobKind::Ice,
        stats: MobStats { hp: HP { current: 10, max: 10 }, armor: 1, speed: 50 },
        rank: MobRank::Normal,
    }
}

impl Default for WaveConfig {
    fn default() -> (r: Self)
        ensures
            r == default_config(),
    {
        WaveConfig {
            spawn_interval: 1_500_000_000,
            initial_delay: 1_000_000_000,
            unit_count: 10,
            kind: MobKind::Ice,
            stats: MobStats { hp: HP { current: 10, max: 10 }, armor: 1, speed: 50 },
            rank: MobRank::Normal,
        }
    }
}

/// A timed batch of identical units released along one path.
#[derive(Debug, PartialEq, Eq)]
pub struct Wave {
    pub path: Vec<Point2D>,
    pub enemy: MobBundle,
    pub interval: Nanos,
    pub delay: Nanos,
    pub unit_count: usize,
}

impl Clone for Wave {
    fn clone(&self) -> (r: Self)
        ensures
            r.path@ == self.path@,
            r.enemy.kind == self.enemy.kind,
            r.enemy.stats == self.enemy.stats,
            r.enemy.rank == self.enemy.rank,
            r.enemy.path.path@ == self.enemy.path.path@,
            r.enemy.path.side == self.enemy.path.side,
            r.enemy.path.path_index == self.enemy.path.path_index,
            r.interval == self.interval,
            r.delay == self.delay,
            r.unit_count == self.unit_count,
    {
        Wave {
            path: self.path.clone(),
            enemy: self.enemy.clone(),
            interval: self.interval,
            delay: self.delay,
            unit_count: self.unit_count,
        }
    }
}

impl Wave {
    /// A wave can run: its path has a first point and its interval is not zero.
    pub open spec fn valid(&self) -> bool {
        &&& self.path@.len() >= 1
        &&& self.interval > 0
    }

    /// The wave walks `path`, which the catalog holds under `side`, and is
    /// otherwise as `config` says; its units start at the first waypoint.
    pub open spec fn built_from(&self, path: Seq<Point2D>, side: i32, config: WaveConfig) -> bool {
        &&& self.path@ == path
        &&& self.enemy.kind == config.kind
        &&& self.enemy.stats == config.stats
        &&& self.enemy.rank == config.rank
        &&& self.enemy.path.path@ == path
        &&& self.enemy.path.side == side
        &&& self.enemy.path.path_index == 0
        &&& self.interval == config.spawn_interval
        &&& self.delay == config.initial_delay
        &&& self.unit_count == config.unit_count
    }

    /// Builds a wave along the path with the highest index in `paths`, the
    /// side that was added last, with the numbers of `config`.
    ///
    /// Fails with `EmptyCatalog` exactly when `paths` holds no path.
    pub fn from_catalog(paths: &PathCatalog, config: &WaveConfig) -> (r: Result<Wave, TdError>)
        ensures
            r is Err <==> paths@ =~= Map::empty(),
            r matches Err(e) ==> e == TdError::EmptyCatalog,
            r matches Ok(w) ==> w.built_from(
                paths@[highest_index(paths@)],
                highest_index(paths@),
                *config,
            ) && w.path@.len() >= 2,
    {
        let side: i32 = match paths.highest() {
            Some(k) => k,
            None => {
                return Err(TdError::EmptyCatalog);
            },
        };
        let path: &Vec<Point2D> = paths.get(side).unwrap();
        Ok(
            Wave {
                path: path.clone(),
                enemy: MobBundle {
                    kind: config.kind,
                    stats: config.stats,
                    rank: config.rank,
                    path: MobPath { path: path.clone(), side, path_index: 0 },
                },
                interval: config.spawn_interval,
                delay: config.initial_delay,
                unit_count: config.unit_count,
            },
        )
    }

    /// Builds a wave along the path with the highest index in `paths`, with
    /// the default configuration.
    ///
    /// Fails with `EmptyCatalog` exactly when `paths` holds no path.
    pub fn new(paths: &PathCatalog) -> (r: Result<Wave, TdError>)
        ensures
            r is Err <==> paths@ =~= Map::empty(),
            r matches Err(e) ==> e == TdError::EmptyCatalog,
            r matches Ok(w) ==> w.built_from(
                paths@[highest_index(paths@)],
                highest_index(paths@),
                default_config(),
            ) && w.valid(),
    {
        let config = WaveConfig::default();
        Wave::from_catalog(paths, &config)
    }
}

/// The runtime counters of the active wave.
pub struct WaveStats {
    delay_elapsed: Nanos,
    delay_target: Nanos,
    interval_elapsed: Nanos,
    interval_target: Nanos,
    remaining: usize,
}

impl View for WaveStats {
    type V = WaveStatsView;

    closed spec fn view(&self) -> WaveStatsView {
        WaveStatsView {
            delay_elapsed: self.delay_elapsed as nat,
            delay_target: self.delay_target as nat,
            interval_elapsed: self.interval_elapsed as nat,
            interval_target: self.interval_target as nat,
            remaining: self.remaining as nat,
        }
    }
}

impl Default for WaveStats {
    /// Counters with nothing left to spawn, for the time before any wave is
    /// active: a pause and an interval of one second each.
    fn default() -> (r: Self)
        ensures
            r@ == WaveStatsView::fresh(1_000_000_000, 1_000_000_000, 0),
            r@.wf(),
    {
        WaveStats {
            delay_elapsed: 0,
            delay_target: 1_000_000_000,
            interval_elapsed: 0,
            interval_target: 1_000_000_000,
            remaining: 0,
        }
    }
}

impl WaveStats {
    #[verifier::type_invariant]
    spec fn inv(self) -> bool {
        self@.wf()
    }

    /// The counters for `value` as it becomes the active wave: nothing has
    /// elapsed and every unit is still to come.
    ///
    /// Fails with `InvalidWaveConfig` exactly when the wave's interval is
    /// zero: such a wave would spawn on every tick, or never.
    pub fn from(value: &Wave) -> (r: Result<WaveStats, TdError>)
        ensures
            r is Err <==> value.interval == 0,
            r matches Err(e) ==> e == TdError::InvalidWaveConfig,
            r matches Ok(s) ==> s@ == value.fresh_stats() && s@.wf(),
    {
        if value.interval == 0 {
            return Err(TdError::InvalidWaveConfig);
        }
        Ok(WaveStats::start(value))
    }

    fn start(value: &Wave) -> (r: WaveStats)
        requires
            value.interval > 0,
        ensures
            r@ == value.fresh_stats(),
    {
        WaveStats {
            delay_elapsed: 0,
            delay_target: value.delay,
            interval_elapsed: 0,
            interval_target: value.interval,
            remaining: value.unit_count,
        }
    }

    /// How much of the pause has passed; it stops at the target.
    pub fn delay_elapsed(&self) -> (r: Nanos)
        ensures
            r == self@.delay_elapsed,
        no_unwind
    {
        self.delay_elapsed
    }

    /// How long the pause before the first spawn is.
    pub fn delay_target(&self) -> (r: Nanos)
        ensures
            r == self@.delay_target,
        no_unwind
    {
        self.delay_target
    }

    /// How much time has passed since the last spawn, or since the tick on
    /// which the pause ended.
    pub fn interval_elapsed(&self) -> (r: Nanos)
        ensures
            r == self@.interval_elapsed,
        no_unwind
    {
        self.interval_elapsed
    }

    /// How much time lies between two spawns.
    pub fn interval_target(&self) -> (r: Nanos)
        ensures
            r == self@.interval_target,
        no_unwind
    {
        self.interval_target
    }

    /// How many units are still to be spawned.
    pub fn remaining(&self) -> (r: usize)
        ensures
            r == self@.remaining,
        no_unwind
    {
        self.remaining
    }

    /// Lets `elapsed` pass and says whether a unit is to be spawned now.
    pub fn tick(&mut self, elapsed: Nanos) -> (fired: bool)
        ensures
            final(self)@ == old(self)@.tick(elapsed as nat),
            fired == old(self)@.fires(elapsed as nat),
            old(self)@.wf(),
            final(self)@.wf(),
        no_unwind
    {
        proof {
            use_type_invariant(&*self);
        }
        if self.remaining == 0 {
            return false;
        }
        if elapsed < self.delay_target - self.delay_elapsed {
            self.delay_elapsed = self.delay_elapsed + elapsed;
            return false;
        }
        self.delay_elapsed = self.delay_target;
        if elapsed < self.interval_target - self.interval_elapsed {
            self.interval_elapsed = self.interval_elapsed + elapsed;
            return false;
        }
        self.interval_elapsed = 0;
        self.remaining = self.remaining - 1;
        true
    }
}

/// The waves of an encounter in the order in which they run, and which of
/// them is active: `current == list.len()` means that none is.
pub struct WavesView {
    pub list: Seq<Wave>,
    pub current: nat,
}

impl WavesView {
    /// The cursor is within the list, and every wave can run.
    pub open spec fn wf(self) -> bool {
        &&& self.current <= self.list.len()
        &&& forall|i: int| 0 <= i < self.list.len() ==> (#[trigger] self.list[i]).valid()
    }

    /// Some wave is active.
    pub open spec fn active(self) -> bool {
        self.current < self.list.len()
    }

    /// The active wave; meaningful when `active()`.
    pub open spec fn wave(self) -> Wave {
        self.list[self.current as int]
    }

    /// The list after the cursor has moved on by one wave, if one was active.
    pub open spec fn advance(self) -> Self {
        if self.active() {
            WavesView { current: self.current + 1, ..self }
        } else {
            self
        }
    }
}

/// The waves of an encounter and the cursor to the active one.
pub struct Waves {
    list: Vec<Wave>,
    current: usize,
}

impl View for Waves {
    type V = WavesView;

    closed spec fn view(&self) -> WavesView {
        WavesView { list: self.list@, current: self.current as nat }
    }
}

impl Default for Waves {
    fn default() -> (r: Self)
        ensures
            r@.list.len() == 0,
            r@.current == 0,
            r@.wf(),
    {
        Waves::new()
    }
}

impl Waves {
    #[verifier::type_invariant]
    spec fn inv(self) -> bool {
        self@.wf()
    }

    /// No waves, and so none active.
    pub fn new() -> (r: Self)
        ensures
            r@.list.len() == 0,
            r@.current == 0,
            r@.wf(),
    {
        Waves { list: Vec::new(), current: 0 }
    }

    /// Appends `wave`. If no wave was active, the new one is.
    ///
    /// Fails, leaving the list as it was, with `InvalidGeometry` when the
    /// wave's path is empty, and else with `InvalidWaveConfig` when its
    /// interval is zero.
    pub fn push(&mut self, wave: Wave) -> (r: Result<(), TdError>)
        ensures
            r is Ok <==> wave.valid(),
            r is Ok ==> final(self)@ == (WavesView {
                list: old(self)@.list.push(wave),
                current: old(self)@.current,
            }),
            r is Err ==> final(self)@ == old(self)@,
            r matches Err(e) ==> e == (if wave.path@.len() == 0 {
                TdError::InvalidGeometry
            } else {
                TdError::InvalidWaveConfig
            }),
            final(self)@.wf(),
    {
        proof {
            use_type_invariant(&*self);
        }
        if wave.path.len() == 0 {
            return Err(TdError::InvalidGeometry);
        }
        if wave.interval == 0 {
            return Err(TdError::InvalidWaveConfig);
        }
        let mut taken = Waves::new();
        core::mem::swap(self, &mut taken);
        let Waves { list, current } = taken;
        let mut list = list;
        list.push(wave);
        *self = Waves { list, current };
        Ok(())
    }

    /// How many waves the list holds, run or not.
    pub fn len(&self) -> (n: usize)
        ensures
            n == self@.list.len(),
    {
        self.list.len()
    }

    /// Whether the list holds no wave at all.
    pub fn is_empty(&self) -> (b: bool)
        ensures
            b <==> self@.list.len() == 0,
    {
        self.list.len() == 0
    }

    /// The active wave, if there is one. It can run.
    pub fn current(&self) -> (r: Option<&Wave>)
        ensures
            r is Some <==> self@.active(),
            r matches Some(w) ==> *w == self@.wave(),
            self@.wf(),
        no_unwind
    {
        proof {
            use_type_invariant(self);
        }
        if self.current < self.list.len() {
            Some(&self.list[self.current])
        } else {
            None
        }
    }

    /// Moves the cursor on by one wave and hands out the wave that is
    /// active then. After the last wave nothing is active, and stays so.
    pub fn advance(&mut self) -> (r: Option<&Wave>)
        ensures
            final(self)@ == old(self)@.advance(),
            r is Some <==> final(self)@.active(),
            r matches Some(w) ==> *w == final(self)@.wave(),
            final(self)@.wf(),
        no_unwind
    {
        proof {
            use_type_invariant(&*self);
        }
        if self.current < self.list.len() {
            self.current = self.current + 1;
        }
        self.current()
    }
}

/// Where the scheduler stands.
#[derive(Clone, Copy, Debug, PartialEq, Eq, Structural)]
pub enum SchedulerState {
    /// No wave is active.
    Idle,
    /// The active wave is in the pause before its first spawn.
    Delaying,
    /// The pause is over and units are still to come.
    Spawning,
    /// Every unit of the active wave has been spawned.
    Exhausted,
}

/// What the host is asked to bring into the world.
#[derive(Debug, PartialEq, Eq)]
pub struct SpawnRequest {
    /// Where the unit appears.
    pub position: Point2D,
    /// The unit, at the first waypoint of its path.
    pub enemy: MobBundle,
}

impl Wave {
    /// `req` is a spawn of this wave: a copy of its unit, on the wave's path,
    /// at the first waypoint.
    pub open spec fn releases(&self, req: SpawnRequest) -> bool {
        &&& req.position == self.path@[0]
        &&& req.enemy.kind == self.enemy.kind
        &&& req.enemy.stats == self.enemy.stats
        &&& req.enemy.rank == self.enemy.rank
        &&& req.enemy.path.path@ == self.path@
        &&& req.enemy.path.side == self.enemy.path.side
        &&& req.enemy.path.path_index == 0
    }

    /// The counters with which this wave becomes active.
    pub open spec fn fresh_stats(&self) -> WaveStatsView {
        WaveStatsView::fresh(self.delay as nat, self.interval as nat, self.unit_count as nat)
    }
}

/// The scheduler as numbers: the waves with their cursor, and the counters
/// of the active wave.
pub struct SchedulerView {
    pub waves: WavesView,
    pub stats: WaveStatsView,
}

impl SchedulerView {
    /// The cursor is within the list, every wave can run, and the counters
    /// are those of the active wave.
    pub open spec fn wf(self) -> bool {
        &&& self.waves.wf()
        &&& self.stats.wf()
        &&& self.waves.active() ==> {
            &&& self.stats.delay_target == self.waves.wave().delay
            &&& self.stats.interval_target == self.waves.wave().interval
            &&& self.stats.remaining <= self.waves.wave().unit_count
        }
    }

    /// Where the scheduler stands: idle without an active wave; else
    /// exhausted when no unit of the wave remains; else delaying until the
    /// pause is over, and spawning after it.
    pub open spec fn state(self) -> SchedulerState {
        if !self.waves.active() {
            SchedulerState::Idle
        } else if self.stats.exhausted() {
            SchedulerState::Exhausted
        } else if !self.stats.delay_done() {
            SchedulerState::Delaying
        } else {
            SchedulerState::Spawning
        }
    }

    /// Whether a tick of `elapsed` spawns a unit.
    pub open spec fn spawns(self, elapsed: nat) -> bool {
        self.waves.active() && self.stats.fires(elapsed)
    }

    /// The scheduler after a tick of `elapsed`: the counters of the active
    /// wave move, the cursor does not. Without an active wave nothing moves.
    pub open spec fn tick(self, elapsed: nat) -> Self {
        if self.waves.active() {
            SchedulerView { stats: self.stats.tick(elapsed), ..self }
        } else {
            self
        }
    }

    /// The scheduler after the cursor has moved on: the next wave, if there
    /// is one, starts with fresh counters.
    pub open spec fn advance(self) -> Self {
        let waves = self.waves.advance();
        if self.waves.active() && waves.active() {
            SchedulerView { waves, stats: waves.wave().fresh_stats() }
        } else {
            SchedulerView { waves, ..self }
        }
    }

    /// The scheduler after `wave` has been appended: if no wave was active,
    /// the new one is, with fresh counters.
    pub open spec fn push(self, wave: Wave) -> Self {
        let waves = WavesView { list: self.waves.list.push(wave), ..self.waves };
        if self.waves.active() {
            SchedulerView { waves, ..self }
        } else {
            SchedulerView { waves, stats: wave.fresh_stats() }
        }
    }

    /// One frame: a tick, and then the move to the next wave if the active
    /// one is exhausted.
    pub open spec fn frame(self, elapsed: nat) -> Self {
        let ticked = self.tick(elapsed);
        if ticked.state() == SchedulerState::Exhausted {
            ticked.advance()
        } else {
            ticked
        }
    }
}

/// Decides, tick by tick, when the active wave releases its next unit.
pub struct WaveScheduler {
    waves: Waves,
    stats: WaveStats,
}

impl View for WaveScheduler {
    type V = SchedulerView;

    closed spec fn view(&self) -> SchedulerView {
        SchedulerView { waves: self.waves@, stats: self.stats@ }
    }
}

impl Default for WaveScheduler {
    fn default() -> (r: Self)
        ensures
            r@.waves.list.len() == 0,
            r@.waves.current == 0,
            r@.stats == WaveStatsView::fresh(1_000_000_000, 1_000_000_000, 0),
            r@.wf(),
    {
        WaveScheduler::new()
    }
}

impl WaveScheduler {
    #[verifier::type_invariant]
    spec fn inv(self) -> bool {
        self@.wf()
    }

    /// A scheduler without waves, with the counters that `WaveStats`
    /// has by default.
    pub fn new() -> (r: Self)
        ensures
            r@.waves.list.len() == 0,
            r@.waves.current == 0,
            r@.stats == WaveStatsView::fresh(1_000_000_000, 1_000_000_000, 0),
            r@.wf(),
    {
        let waves = Waves::new();
        let stats = WaveStats::default();
        proof {
            use_type_invariant(&stats);
        }
        WaveScheduler { waves, stats }
    }

    /// Appends `wave`. If no wave was active, the new one becomes active and
    /// starts its pause.
    ///
    /// Fails, leaving the scheduler as it was, with `InvalidGeometry` when
    /// the wave's path is empty, and else with `InvalidWaveConfig` when its
    /// interval is zero.
    pub fn push(&mut self, wave: Wave) -> (r: Result<(), TdError>)
        ensures
            r is Ok <==> wave.valid(),
            r is Ok ==> final(self)@ == old(self)@.push(wave),
            r is Err ==> final(self)@ == old(self)@,
            r matches Err(e) ==> e == (if wave.path@.len() == 0 {
                TdError::InvalidGeometry
            } else {
                TdError::InvalidWaveConfig
            }),
            final(self)@.wf(),
    {
        proof {
            use_type_invariant(&*self);
        }
        let mut taken = WaveScheduler::new();
        core::mem::swap(self, &mut taken);
        let WaveScheduler { waves, stats } = taken;
        let mut waves = waves;
        let stats = if wave.interval == 0 || wave.path.len() == 0 || waves.current().is_some() {
            stats
        } else {
            WaveStats::start(&wave)
        };
        let r = waves.push(wave);
        proof {
            use_type_invariant(&waves);
            use_type_invariant(&stats);
        }
        *self = WaveScheduler { waves, stats };
        r
    }

    /// Where the scheduler stands.
    pub fn state(&self) -> (r: SchedulerState)
        ensures
            r == self@.state(),
            self@.wf(),
    {
        proof {
            use_type_invariant(self);
        }
        if self.waves.current().is_none() {
            SchedulerState::Idle
        } else if self.stats.remaining() == 0 {
            SchedulerState::Exhausted
        } else if self.stats.delay_elapsed() < self.stats.delay_target() {
            SchedulerState::Delaying
        } else {
            SchedulerState::Spawning
        }
    }

    /// Lets `elapsed` pass for the active wave and hands out the spawn that
    /// falls due, if one does. The cursor stays where it is: a wave whose
    /// last unit has been spawned is left exhausted.
    pub fn tick(&mut self, elapsed: Nanos) -> (r: Option<SpawnRequest>)
        ensures
            final(self)@ == old(self)@.tick(elapsed as nat),
            r is Some <==> old(self)@.spawns(elapsed as nat),
            r matches Some(req) ==> old(self)@.waves.wave().releases(req),
            final(self)@.wf(),
    {
        proof {
            use_type_invariant(&*self);
        }
        match self.waves.current() {
            None => None,
            Some(wave) => {
                if self.stats.tick(elapsed) {
                    Some(
                        SpawnRequest {
                            position: wave.path[0],
                            enemy: MobBundle {
                                kind: wave.enemy.kind,
                                stats: wave.enemy.stats,
                                rank: wave.enemy.rank,
                                path: MobPath {
                                    path: wave.path.clone(),
                                    side: wave.enemy.path.side,
                                    path_index: 0,
                                },
                            },
                        },
                    )
                } else {
                    None
                }
            },
        }
    }

    /// Moves on to the next wave, which starts its pause; after the last
    /// wave the scheduler is idle for good. An idle scheduler stays as it is.
    pub fn advance(&mut self)
        ensures
            final(self)@ == old(self)@.advance(),
            final(self)@.wf(),
    {
        proof {
            use_type_invariant(&*self);
        }
        let mut taken = WaveScheduler::new();
        core::mem::swap(self, &mut taken);
        let WaveScheduler { waves, stats } = taken;
        let mut waves = waves;
        let stats = match waves.advance() {
            Some(next) => WaveStats::start(next),
            None => stats,
        };
        proof {
            use_type_invariant(&waves);
            use_type_invariant(&stats);
        }
        *self = WaveScheduler { waves, stats };
    }

    /// The waves and the cursor.
    pub fn waves(&self) -> (r: &Waves)
        ensures
            r@ == self@.waves,
    {
        &self.waves
    }

    /// The counters of the active wave.
    pub fn stats(&self) -> (r: &WaveStats)
        ensures
            r@ == self@.stats,
    {
        &self.stats
    }
}

/// Runs the scheduler for one frame of `elapsed`: a tick, which hands out
/// the spawn that falls due, and then the move to the next wave if the
/// active one is exhausted.
pub fn spawn_mobs(scheduler: &mut WaveScheduler, elapsed: Nanos) -> (r: Option<SpawnRequest>)
    ensures
        final(scheduler)@ == old(scheduler)@.frame(elapsed as nat),
        r is Some <==> old(scheduler)@.spawns(elapsed as nat),
        r matches Some(req) ==> old(scheduler)@.waves.wave().releases(req),
        final(scheduler)@.wf(),
{
    let r = scheduler.tick(elapsed);
    match scheduler.state() {
        SchedulerState::Exhausted => {
            scheduler.advance();
        },
        _ => {},
    }
    r
}

} // verus!
