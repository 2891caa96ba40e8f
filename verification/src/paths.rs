//! The paths of a map: what the map says of its objects, which of them are
//! paths for enemies, and the catalog that keeps those paths by index.
//!
//! The catalog keeps its paths in the hash table of `hashbrown` that `bevy`
//! hands on. The table is the one part of this crate that is taken on trust:
//! see `PathTable` and the four functions below it.

use crate::error::TdError;
use bevy::utils::hashbrown::HashMap;
use std::collections::hash_map::RandomState;
use vstd::prelude::*;

verus! {

/// A point of the world, in whole world units.
#[derive(Clone, Copy, Debug, PartialEq, Eq, Structural)]
pub struct Point2D {
    pub x: i32,
    pub y: i32,
}

/// One path as the map geometry hands it over: its index, as the map states
/// it, and its points, in walking order.
#[derive(Debug, PartialEq, Eq)]
pub struct RawPath {
    pub index: i32,
    pub points: Vec<Point2D>,
}

impl Clone for RawPath {
    fn clone(&self) -> (r: Self)
        ensures
            r.index == self.index,
            r.points@ == self.points@,
    {
        RawPath { index: self.index, points: self.points.clone() }
    }
}

/// What a map says of one of its objects, as far as paths go.
#[derive(Debug, PartialEq, Eq)]
pub struct MapObject {
    /// The class that the map gives the object.
    pub user_type: String,
    /// The points of the object in the world, in their order, if the object
    /// is a line or an outline of several points.
    pub outline: Option<Vec<Point2D>>,
    /// The whole number that the object has as its `index`, if it has one.
    pub index: Option<i32>,
}

impl MapObject {
    /// The object is a path for enemies: of the class `enemy_path`, with
    /// points and with an index.
    pub open spec fn is_enemy_path(&self) -> bool {
        &&& self.user_type@ == "enemy_path"@
        &&& self.outline is Some
        &&& self.index is Some
    }
}

/// The index and the points of each enemy path among `objects`, in the order
/// of the objects.
pub open spec fn enemy_paths_of(objects: Seq<MapObject>) -> Seq<(i32, Seq<Point2D>)>
    decreases objects.len(),
{
    if objects.len() == 0 {
        Seq::empty()
    } else {
        let before = enemy_paths_of(objects.drop_last());
        let object = objects.last();
        if object.is_enemy_path() {
            before.push((object.index->0, object.outline->0@))
        } else {
            before
        }
    }
}

/// Picks the enemy paths out of the objects of a map, in the order of the
/// objects; every other object is passed over.
pub fn enemy_paths(objects: Vec<MapObject>) -> (raw: Vec<RawPath>)
    ensures
        raw.len() == enemy_paths_of(objects@).len(),
        forall|i: int|
            0 <= i < raw.len() ==> (#[trigger] raw[i]).index == enemy_paths_of(objects@)[i].0
                && raw[i].points@ == enemy_paths_of(objects@)[i].1,
{
    let wanted: String = "enemy_path".to_owned();
    let ghost all = objects@;
    let mut raw: Vec<RawPath> = Vec::new();
    for object in it: objects
        invariant
            all == objects@,
            wanted@ == "enemy_path"@,
            raw.len() == enemy_paths_of(all.take(it.index() as int)).len(),
            forall|i: int|
                0 <= i < raw.len() ==> (#[trigger] raw[i]).index == enemy_paths_of(
                    all.take(it.index() as int),
                )[i].0 && raw[i].points@ == enemy_paths_of(all.take(it.index() as int))[i].1,
    {
        assert(all.take(it.index() + 1).drop_last() == all.take(it.index() as int));
        if object.user_type == wanted {
            match (object.index, object.outline) {
                (Some(index), Some(points)) => {
                    raw.push(RawPath { index, points });
                },
                _ => {},
            }
        }
    }
    assert(all.take(all.len() as int) == all);
    raw
}

/// Whether `k` is the index of some entry of `raw`.
pub open spec fn raw_has_index(raw: Seq<RawPath>, k: i32) -> bool {
    exists|i: int| 0 <= i < raw.len() && (#[trigger] raw[i]).index == k
}

/// Whether `raw` can become a catalog: every path has a start and at least
/// one further point, no index is negative, and no index occurs twice.
pub open spec fn raw_valid(raw: Seq<RawPath>) -> bool {
    &&& forall|i: int| 0 <= i < raw.len() ==> (#[trigger] raw[i]).points@.len() >= 2
    &&& forall|i: int| 0 <= i < raw.len() ==> (#[trigger] raw[i]).index >= 0
    &&& forall|i: int, j: int|
        0 <= i < j < raw.len() ==> (#[trigger] raw[i]).index != (#[trigger] raw[j]).index
}

/// Whether `k` is the highest index of `m`.
pub open spec fn is_highest(m: Map<i32, Seq<Point2D>>, k: i32) -> bool {
    &&& m.contains_key(k)
    &&& forall|j: i32| m.contains_key(j) ==> j <= k
}

/// The highest index of `m`; meaningful when `m` is not empty.
pub open spec fn highest_index(m: Map<i32, Seq<Point2D>>) -> i32 {
    choose|k: i32| is_highest(m, k)
}

/// The highest index of a map is the only one that `is_highest` holds of.
pub proof fn lemma_highest_index(m: Map<i32, Seq<Point2D>>, k: i32)
    requires
        is_highest(m, k),
    ensures
        highest_index(m) == k,
{
}

/// The hash table that a catalog keeps its paths in. Nothing of it is
/// proved here: what it holds is known through `table_paths` alone.
#[verifier::external_body]
pub struct PathTable {
    map: HashMap<i32, Vec<Point2D>, RandomState>,
}

/// The paths that a table holds, by index.
pub uninterp spec fn table_paths(table: PathTable) -> Map<i32, Seq<Point2D>>;

/// `HashMap::default` of hashbrown: a table that holds nothing.
#[verifier::external_body]
fn table_new() -> (fresh: PathTable)
    ensures
        table_paths(fresh) =~= Map::empty(),
{
    PathTable { map: HashMap::default() }
}

/// `HashMap::insert` of hashbrown: afterwards the table holds `points` under
/// `index` and is otherwise as before; what `index` held before comes back,
/// and `None` if it held nothing.
#[verifier::external_body]
fn table_insert(table: &mut PathTable, index: i32, points: Vec<Point2D>) -> (previous: Option<
    Vec<Point2D>,
>)
    ensures
        table_paths(*final(table)) == table_paths(*old(table)).insert(index, points@),
        previous is Some <==> table_paths(*old(table)).contains_key(index),
        previous matches Some(p) ==> p@ == table_paths(*old(table))[index],
{
    table.map.insert(index, points)
}

/// `HashMap::get` of hashbrown: the path that the table holds under `index`,
/// and `None` if it holds none there.
#[verifier::external_body]
fn table_get(table: &PathTable, index: i32) -> (found: Option<&Vec<Point2D>>)
    ensures
        found is Some <==> table_paths(*table).contains_key(index),
        found matches Some(p) ==> p@ == table_paths(*table)[index],
{
    table.map.get(&index)
}

/// `HashMap::len` of hashbrown: the number of paths that the table holds.
#[verifier::external_body]
fn table_len(table: &PathTable) -> (n: usize)
    ensures
        n == table_paths(*table).len(),
{
    table.map.len()
}

/// The paths of one encounter, by index. Built once, read-only afterwards.
pub struct PathCatalog {
    paths: PathTable,
    highest: Option<i32>,
}

impl View for PathCatalog {
    type V = Map<i32, Seq<Point2D>>;

    closed spec fn view(&self) -> Map<i32, Seq<Point2D>> {
        table_paths(self.paths)
    }
}

impl PathCatalog {
    #[verifier::type_invariant]
    spec fn inv(self) -> bool {
        &&& self@.dom().finite()
        &&& forall|k: i32| #[trigger] self@.contains_key(k) ==> k >= 0 && self@[k].len() >= 2
        &&& match self.highest {
            Some(h) => is_highest(self@, h),
            None => self@ =~= Map::empty(),
        }
    }

    /// Builds the catalog of `raw`.
    ///
    /// Fails with `InvalidGeometry` exactly when some path has fewer than two
    /// points, some index is negative, or two entries share an index.
    /// Otherwise the catalog maps each entry's index to its points, and holds
    /// nothing else.
    pub fn build(raw: Vec<RawPath>) -> (r: Result<PathCatalog, TdError>)
        ensures
            raw_valid(raw@) <==> r is Ok,
            r matches Err(e) ==> e == TdError::InvalidGeometry,
            r matches Ok(c) ==> {
                &&& forall|k: i32| c@.contains_key(k) <==> raw_has_index(raw@, k)
                &&& forall|i: int|
                    0 <= i < raw.len() ==> c@[(#[trigger] raw[i]).index] == raw[i].points@
            },
    {
        let ghost all = raw@;
        let mut rest = raw;
        let mut paths = table_new();
        let mut highest: Option<i32> = None;
        while rest.len() > 0
            invariant
                all == raw@,
                rest.len() <= all.len(),
                rest@ == all.subrange(0, rest.len() as int),
                table_paths(paths).dom().finite(),
                forall|i: int| rest.len() <= i < all.len() ==> (#[trigger] all[i]).points@.len() >= 2,
                forall|i: int| rest.len() <= i < all.len() ==> (#[trigger] all[i]).index >= 0,
                forall|i: int, j: int|
                    rest.len() <= i < j < all.len() ==> (#[trigger] all[i]).index != (
                    #[trigger] all[j]).index,
                forall|k: i32| #[trigger]
                    table_paths(paths).contains_key(k) <==> exists|i: int|
                        rest.len() <= i < all.len() && (#[trigger] all[i]).index == k,
                forall|i: int|
                    rest.len() <= i < all.len() ==> table_paths(paths)[(#[trigger] all[i]).index]
                        == all[i].points@,
                match highest {
                    Some(h) => is_highest(table_paths(paths), h),
                    None => table_paths(paths) =~= Map::empty(),
                },
            decreases rest.len(),
        {
            let entry = rest.pop().unwrap();
            if entry.points.len() < 2 || entry.index < 0 {
                return Err(TdError::InvalidGeometry);
            }
            let index: i32 = entry.index;
            if table_insert(&mut paths, index, entry.points).is_some() {
                return Err(TdError::InvalidGeometry);
            }
            highest = match highest {
                Some(h) => if h < index { Some(index) } else { Some(h) },
                None => Some(index),
            };
        }
        Ok(PathCatalog { paths, highest })
    }

    /// The path stored under `index`, if there is one. Every path handed out
    /// has at least two points, and no path is stored under a negative index.
    pub fn get(&self, index: i32) -> (r: Option<&Vec<Point2D>>)
        ensures
            r is Some <==> self@.contains_key(index),
            r matches Some(p) ==> p@ == self@[index] && p@.len() >= 2 && index >= 0,
    {
        proof {
            use_type_invariant(self);
        }
        table_get(&self.paths, index)
    }

    /// The highest index that holds a path; `None` when the catalog is empty.
    pub fn highest(&self) -> (r: Option<i32>)
        ensures
            match r {
                Some(k) => is_highest(self@, k) && k == highest_index(self@) && k >= 0,
                None => self@ =~= Map::empty(),
            },
    {
        proof {
            use_type_invariant(self);
            if let Some(k) = self.highest {
                lemma_highest_index(self@, k);
            }
        }
        self.highest
    }

    /// The number of paths.
    pub fn len(&self) -> (n: usize)
        ensures
            self@.dom().finite(),
            n == self@.len(),
    {
        proof {
            use_type_invariant(self);
        }
        table_len(&self.paths)
    }

    /// Whether the catalog holds no path.
    pub fn is_empty(&self) -> (b: bool)
        ensures
            b <==> self@ =~= Map::empty(),
    {
        proof {
            use_type_invariant(self);
        }
        self.highest.is_none()
    }
}

} // verus!
