//! Units and how they move: from where they stand toward the next waypoint
//! of their path, in whole world units.

use crate::paths::Point2D;
use crate::sqrt::{integer_sqrt, isqrt, lemma_isqrt};
use crate::tdcomponents::HP;
use crate::time::{Nanos, NANOS_PER_SECOND_SQUARED};
use vstd::prelude::*;

verus! {

/// What a unit is made of; decides nothing about how it walks.
#[derive(Clone, Copy, Debug, PartialEq, Eq, Structural)]
pub enum MobKind {
    Air,
    Ice,
    Fire,
    Wizard,
    Posion,
    Normal,
}

impl Default for MobKind {
    fn default() -> (r: Self)
        ensures
            r == MobKind::Normal,
    {
        MobKind::Normal
    }
}

/// The rank of a unit within its wave.
#[derive(Clone, Copy, Debug, PartialEq, Eq, Structural)]
pub enum MobRank {
    Normal,
    Captain,
    General,
}

impl Default for MobRank {
    fn default() -> (r: Self)
        ensures
            r == MobRank::Normal,
    {
        MobRank::Normal
    }
}

/// The numbers of one unit. `speed` is in world units per second.
#[derive(Clone, Copy, Debug, PartialEq, Eq, Structural)]
pub struct MobStats {
    pub hp: HP,
    pub armor: i32,
    pub speed: u32,
}

impl Default for MobStats {
    fn default() -> (r: Self)
        ensures
            r == (MobStats { hp: HP { current: 0, max: 0 }, armor: 0, speed: 0 }),
    {
        MobStats { hp: HP::default(), armor: 0, speed: 0 }
    }
}

/// The path a unit walks and how far along it the unit is: `side` is the
/// index of the path in the catalog, `path_index` the waypoint that the unit
/// has reached last.
#[derive(Debug, PartialEq, Eq)]
pub struct MobPath {
    pub path: Vec<Point2D>,
    pub side: i32,
    pub path_index: usize,
}

impl Clone for MobPath {
    fn clone(&self) -> (r: Self)
        ensures
            r.path@ == self.path@,
            r.side == self.side,
            r.path_index == self.path_index,
    {
        MobPath { path: self.path.clone(), side: self.side, path_index: self.path_index }
    }
}

impl Default for MobPath {
    fn default() -> (r: Self)
        ensures
            r.path@.len() == 0,
            r.side == 0,
            r.path_index == 0,
    {
        MobPath { path: Vec::new(), side: 0, path_index: 0 }
    }
}

/// Everything a unit is spawned with.
#[derive(Debug, PartialEq, Eq)]
pub struct MobBundle {
    pub kind: MobKind,
    pub stats: MobStats,
    pub rank: MobRank,
    pub path: MobPath,
}

impl Clone for MobBundle {
    fn clone(&self) -> (r: Self)
        ensures
            r.kind == self.kind,
            r.stats == self.stats,
            r.rank == self.rank,
            r.path.path@ == self.path.path@,
            r.path.side == self.path.side,
            r.path.path_index == self.path.path_index,
    {
        MobBundle { kind: self.kind, stats: self.stats, rank: self.rank, path: self.path.clone() }
    }
}

impl Default for MobBundle {
    fn default() -> (r: Self)
        ensures
            r.kind == MobKind::Normal,
            r.stats == (MobStats { hp: HP { current: 0, max: 0 }, armor: 0, speed: 0 }),
            r.rank == MobRank::Normal,
            r.path.path@.len() == 0,
            r.path.side == 0,
            r.path.path_index == 0,
    {
        MobBundle {
            kind: MobKind::default(),
            stats: MobStats::default(),
            rank: MobRank::default(),
            path: MobPath::default(),
        }
    }
}

/// The square of the distance from `a` to `b`, in world units.
pub open spec fn distance_squared(a: Point2D, b: Point2D) -> nat {
    ((b.x - a.x) * (b.x - a.x) + (b.y - a.y) * (b.y - a.y)) as nat
}

/// The distance from `a` to `b` in billionths of a world unit, rounded down.
pub open spec fn distance(a: Point2D, b: Point2D) -> nat {
    isqrt(distance_squared(a, b) * NANOS_PER_SECOND_SQUARED as nat)
}

/// How far a unit of `speed` gets in `elapsed`, in billionths of a world
/// unit.
pub open spec fn reach(speed: u32, elapsed: Nanos) -> nat {
    speed as nat * elapsed as nat
}

/// Whether a step of `step` billionths of a world unit covers the whole way
/// from `a` to `b`. The comparison is exact: nothing is rounded.
pub open spec fn arrives(a: Point2D, b: Point2D, step: nat) -> bool {
    step * step >= distance_squared(a, b) * NANOS_PER_SECOND_SQUARED as nat
}

/// The coordinate that lies the fraction `step / dist` of the way from `from`
/// to `to`, rounded toward `from`.
pub open spec fn approach(from: int, to: int, step: nat, dist: nat) -> int {
    if from <= to {
        from + ((to - from) * step) / (dist as int)
    } else {
        from - ((from - to) * step) / (dist as int)
    }
}

/// The point reached from `pos` by a step of `step` billionths of a world
/// unit along the straight line to `target`; meaningful when the step does
/// not arrive.
///
/// Each coordinate is rounded toward `pos`: a step that covers less than one
/// world unit along an axis leaves that coordinate where it is. A host
/// chooses its world unit small against the way that a unit covers in a
/// tick.
pub open spec fn step_toward(pos: Point2D, target: Point2D, step: nat) -> Point2D {
    let dist = distance(pos, target);
    Point2D {
        x: approach(pos.x as int, target.x as int, step, dist) as i32,
        y: approach(pos.y as int, target.y as int, step, dist) as i32,
    }
}

/// Where a unit stands, and which waypoint it has reached last, after
/// `elapsed`.
///
/// A unit at its last waypoint stays. Otherwise it heads from where it is
/// for the next waypoint: if its step covers the way, it stands on that
/// waypoint and has reached it, and what is left of the step is dropped;
/// if not, it moves along the straight line by the length of the step.
pub open spec fn advance(
    pos: Point2D,
    path: Seq<Point2D>,
    index: nat,
    speed: u32,
    elapsed: Nanos,
) -> (Point2D, nat) {
    if index + 1 >= path.len() {
        (pos, index)
    } else {
        let target = path[index as int + 1];
        let step = reach(speed, elapsed);
        if arrives(pos, target, step) {
            (target, index + 1)
        } else {
            (step_toward(pos, target, step), index)
        }
    }
}

/// A step that does not arrive is shorter than the rounded distance is long,
/// which is not zero.
pub proof fn lemma_step_within_distance(a: Point2D, b: Point2D, step: nat)
    requires
        !arrives(a, b, step),
    ensures
        step <= distance(a, b),
        distance(a, b) > 0,
{
    let n = distance_squared(a, b) * NANOS_PER_SECOND_SQUARED as nat;
    let d = distance(a, b);
    lemma_isqrt(n);
    if step > d {
        assert((d + 1) * (d + 1) <= step * step) by (nonlinear_arith)
            requires
                d + 1 <= step,
        ;
    }
    if d == 0 {
        assert((d + 1) * (d + 1) == 1) by (nonlinear_arith)
            requires
                d == 0,
        ;
        assert(step * step >= 0) by (nonlinear_arith);
    }
}

/// A coordinate that approaches by a step within the distance stays between
/// where it was and where it heads.
pub proof fn lemma_approach_between(from: int, to: int, step: nat, dist: nat)
    requires
        step <= dist,
        dist > 0,
    ensures
        from <= to ==> from <= approach(from, to, step, dist) <= to,
        to <= from ==> to <= approach(from, to, step, dist) <= from,
{
    let gap: int = if from <= to { to - from } else { from - to };
    assert(0 <= (gap * step) / (dist as int) <= gap) by (nonlinear_arith)
        requires
            0 <= gap,
            0 <= step <= dist,
            dist > 0,
    ;
}

/// A step that does not arrive leaves the unit between where it was and the
/// waypoint it heads for, along both axes, and so no farther from the
/// waypoint than it was.
pub proof fn lemma_step_toward_between(pos: Point2D, target: Point2D, step: nat)
    requires
        !arrives(pos, target, step),
    ensures
        ({
            let next = step_toward(pos, target, step);
            &&& pos.x <= target.x ==> pos.x <= next.x <= target.x
            &&& target.x <= pos.x ==> target.x <= next.x <= pos.x
            &&& pos.y <= target.y ==> pos.y <= next.y <= target.y
            &&& target.y <= pos.y ==> target.y <= next.y <= pos.y
            &&& distance_squared(next, target) <= distance_squared(pos, target)
        }),
{
    let dist = distance(pos, target);
    let next = step_toward(pos, target, step);
    lemma_step_within_distance(pos, target, step);
    lemma_approach_between(pos.x as int, target.x as int, step, dist);
    lemma_approach_between(pos.y as int, target.y as int, step, dist);
    let (ax, bx) = (target.x - next.x, target.x - pos.x);
    let (ay, by) = (target.y - next.y, target.y - pos.y);
    assert(ax * ax <= bx * bx) by (nonlinear_arith)
        requires
            (0 <= ax <= bx) || (bx <= ax <= 0),
    ;
    assert(ay * ay <= by * by) by (nonlinear_arith)
        requires
            (0 <= ay <= by) || (by <= ay <= 0),
    ;
    assert(ax * ax >= 0 && ay * ay >= 0) by (nonlinear_arith);
}

fn gap(a: i32, b: i32) -> (d: u64)
    ensures
        d == (if a <= b { b - a } else { a - b }),
        d <= 0xffff_ffff,
{
    if a <= b {
        (b as i64 - a as i64) as u64
    } else {
        (a as i64 - b as i64) as u64
    }
}

fn toward(from: i32, to: i32, step: u128, dist: u128) -> (r: i32)
    requires
        step <= dist,
        0 < dist < 0x8000_0000_0000_0000,
    ensures
        r == approach(from as int, to as int, step as nat, dist as nat),
{
    let d: u128 = gap(from, to) as u128;
    assert(d * step <= 0xffff_ffff * 0x8000_0000_0000_0000) by (nonlinear_arith)
        requires
            d <= 0xffff_ffff,
            step <= 0x8000_0000_0000_0000,
    ;
    proof {
        lemma_approach_between(from as int, to as int, step as nat, dist as nat);
    }
    let moved: u128 = d * step / dist;
    if from <= to {
        (from as i64 + moved as i64) as i32
    } else {
        (from as i64 - moved as i64) as i32
    }
}

/// Moves one unit for `elapsed`: `transform` is where it stands, `path` the
/// way it walks, `stats` how fast it is.
pub fn movement(transform: &mut Point2D, path: &mut MobPath, stats: &MobStats, elapsed: Nanos)
    ensures
        (*final(transform), final(path).path_index as nat) == advance(
            *old(transform),
            old(path).path@,
            old(path).path_index as nat,
            stats.speed,
            elapsed,
        ),
        final(path).path@ == old(path).path@,
        final(path).side == old(path).side,
        old(path).path_index <= final(path).path_index <= old(path).path_index + 1,
        old(path).path_index < old(path).path@.len() ==> final(path).path_index < old(
            path,
        ).path@.len(),
{
    let len: usize = path.path.len();
    if len == 0 || path.path_index >= len - 1 {
        return;
    }
    let pos: Point2D = *transform;
    let target: Point2D = path.path[path.path_index + 1];
    let dx: u128 = gap(pos.x, target.x) as u128;
    let dy: u128 = gap(pos.y, target.y) as u128;
    assert(dx * dx <= 0xffff_ffff * 0xffff_ffff) by (nonlinear_arith)
        requires
            dx <= 0xffff_ffff,
    ;
    assert(dy * dy <= 0xffff_ffff * 0xffff_ffff) by (nonlinear_arith)
        requires
            dy <= 0xffff_ffff,
    ;
    let d2: u128 = dx * dx + dy * dy;
    assert(d2 == distance_squared(pos, target)) by (nonlinear_arith)
        requires
            dx == (if pos.x <= target.x { target.x - pos.x } else { pos.x - target.x }),
            dy == (if pos.y <= target.y { target.y - pos.y } else { pos.y - target.y }),
            d2 == dx * dx + dy * dy,
            distance_squared(pos, target) == ((target.x - pos.x) * (target.x - pos.x) + (target.y
                - pos.y) * (target.y - pos.y)) as nat,
    ;
    assert(d2 * NANOS_PER_SECOND_SQUARED <= 0x2_0000_0000_0000_0000 * 1_000_000_000_000_000_000)
        by (nonlinear_arith)
        requires
            d2 <= 0x2_0000_0000_0000_0000,
            NANOS_PER_SECOND_SQUARED == 1_000_000_000_000_000_000,
    ;
    let scaled: u128 = d2 * NANOS_PER_SECOND_SQUARED;
    assert(stats.speed * elapsed <= 0xffff_ffff * 0xffff_ffff_ffff_ffff) by (nonlinear_arith)
        requires
            stats.speed <= 0xffff_ffff,
            elapsed <= 0xffff_ffff_ffff_ffff,
    ;
    let step: u128 = stats.speed as u128 * elapsed as u128;
    let far: bool = step >= 0x8000_0000_0000_0000;
    proof {
        if far {
            assert(step * step >= 0x8000_0000_0000_0000 * 0x8000_0000_0000_0000)
                by (nonlinear_arith)
                requires
                    step >= 0x8000_0000_0000_0000,
            ;
        } else {
            assert(step * step <= 0x8000_0000_0000_0000 * 0x8000_0000_0000_0000)
                by (nonlinear_arith)
                requires
                    step <= 0x8000_0000_0000_0000,
            ;
        }
    }
    if far || step * step >= scaled {
        *transform = target;
        path.path_index = path.path_index + 1;
    } else {
        proof {
            lemma_step_within_distance(pos, target, step as nat);
            lemma_isqrt(scaled as nat);
            let d = distance(pos, target);
            if d >= 0x8000_0000_0000_0000 {
                assert(d * d >= 0x8000_0000_0000_0000 * 0x8000_0000_0000_0000)
                    by (nonlinear_arith)
                    requires
                        d >= 0x8000_0000_0000_0000,
                ;
            }
        }
        let dist: u128 = integer_sqrt(scaled) as u128;
        let x: i32 = toward(pos.x, target.x, step, dist);
        let y: i32 = toward(pos.y, target.y, step, dist);
        *transform = Point2D { x, y };
    }
}

/// Where a unit stands, and which waypoint it has reached last, after the
/// ticks of `ticks`, one after the other.
pub open spec fn walk(
    pos: Point2D,
    path: Seq<Point2D>,
    index: nat,
    speed: u32,
    ticks: Seq<Nanos>,
) -> (Point2D, nat)
    decreases ticks.len(),
{
    if ticks.len() == 0 {
        (pos, index)
    } else {
        let before = walk(pos, path, index, speed, ticks.drop_last());
        advance(before.0, path, before.1, speed, ticks.last())
    }
}

/// When a unit is moved, the waypoint it has reached does not fall back,
/// moves on by one at most, and stays on the path.
pub proof fn lemma_advance_index(
    pos: Point2D,
    path: Seq<Point2D>,
    index: nat,
    speed: u32,
    elapsed: Nanos,
)
    requires
        index < path.len(),
    ensures
        index <= advance(pos, path, index, speed, elapsed).1 <= index + 1,
        advance(pos, path, index, speed, elapsed).1 <= path.len() - 1,
{
}

/// However often a unit is moved, the waypoint it has reached never falls
/// back from one move to the next, and stays on the path.
pub proof fn lemma_walk_index(
    pos: Point2D,
    path: Seq<Point2D>,
    index: nat,
    speed: u32,
    ticks: Seq<Nanos>,
)
    requires
        index < path.len(),
    ensures
        index <= walk(pos, path, index, speed, ticks).1 <= path.len() - 1,
        ticks.len() > 0 ==> walk(pos, path, index, speed, ticks.drop_last()).1 <= walk(
            pos,
            path,
            index,
            speed,
            ticks,
        ).1,
    decreases ticks.len(),
{
    if ticks.len() > 0 {
        lemma_walk_index(pos, path, index, speed, ticks.drop_last());
        let before = walk(pos, path, index, speed, ticks.drop_last());
        lemma_advance_index(before.0, path, before.1, speed, ticks.last());
    }
}

/// A unit that is moved for no time at all stays as it is, unless it stands
/// on the waypoint that it heads for.
pub proof fn lemma_advance_no_time(pos: Point2D, path: Seq<Point2D>, index: nat, speed: u32)
    requires
        !(index + 1 < path.len() && pos == path[index as int + 1]),
    ensures
        advance(pos, path, index, speed, 0) == (pos, index),
{
    if index + 1 < path.len() {
        let target = path[index as int + 1];
        assert(reach(speed, 0) == 0) by (nonlinear_arith);
        if arrives(pos, target, 0) {
            assert(distance_squared(pos, target) == 0) by (nonlinear_arith)
                requires
                    0 >= distance_squared(pos, target) * NANOS_PER_SECOND_SQUARED as nat,
                    NANOS_PER_SECOND_SQUARED == 1_000_000_000_000_000_000,
            ;
            let dx = target.x - pos.x;
            let dy = target.y - pos.y;
            assert(dx * dx >= 0 && dy * dy >= 0) by (nonlinear_arith);
            assert(dx == 0 && dy == 0) by (nonlinear_arith)
                requires
                    dx * dx + dy * dy == 0,
            ;
        } else {
            lemma_step_within_distance(pos, target, 0);
            let dist = distance(pos, target);
            assert(approach(pos.x as int, target.x as int, 0, dist) == pos.x) by (nonlinear_arith)
                requires
                    dist > 0,
            ;
            assert(approach(pos.y as int, target.y as int, 0, dist) == pos.y) by (nonlinear_arith)
                requires
                    dist > 0,
            ;
        }
    }
}

/// A unit that stands on the waypoint that it heads for has reached it as
/// soon as it is moved, for whatever time: it stays where it is, and the
/// waypoint counts.
pub proof fn lemma_advance_on_waypoint(
    pos: Point2D,
    path: Seq<Point2D>,
    index: nat,
    speed: u32,
    elapsed: Nanos,
)
    requires
        index + 1 < path.len(),
        pos == path[index as int + 1],
    ensures
        advance(pos, path, index, speed, elapsed) == (pos, index + 1),
{
    let step = reach(speed, elapsed);
    assert(distance_squared(pos, pos) == 0) by (nonlinear_arith);
    assert(step * step >= 0) by (nonlinear_arith);
}

/// A unit at the last waypoint of its path stays as it is, whatever time
/// passes and however often it is moved.
pub proof fn lemma_advance_terminal(
    pos: Point2D,
    path: Seq<Point2D>,
    index: nat,
    speed: u32,
    elapsed: Nanos,
    ticks: Seq<Nanos>,
)
    requires
        index + 1 == path.len(),
    ensures
        advance(pos, path, index, speed, elapsed) == (pos, index),
        walk(pos, path, index, speed, ticks) == (pos, index),
    decreases ticks.len(),
{
    if ticks.len() > 0 {
        lemma_advance_terminal(pos, path, index, speed, elapsed, ticks.drop_last());
    }
}

} // verus!
