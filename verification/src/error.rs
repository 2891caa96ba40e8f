//! The errors of setting up an encounter.

use vstd::prelude::*;

verus! {

/// Why a catalog or the counters of a wave could not be built, or a wave not
/// be taken into a list.
///
/// Every error is raised while the encounter is being set up; ticking a
/// scheduler or moving a unit never fails.
#[derive(Clone, Copy, Debug, PartialEq, Eq, Structural)]
pub enum TdError {
    /// A path has fewer than two points or a negative index, or two paths
    /// share an index; or a wave has no path to walk.
    InvalidGeometry,
    /// No path is available to build a wave from.
    EmptyCatalog,
    /// A wave's spawn interval is zero.
    InvalidWaveConfig,
}

} // verus!
