//! The simulation core of a tower defense: waves of units that spawn on a
//! schedule and walk a path of waypoints.
//!
//! Time is counted in nanoseconds and the world in whole world units, so
//! that every step of the simulation is exact and the same on every machine.
//! The host feeds in the paths of its map and the time of each frame, and
//! gets back the units to spawn and where each unit stands.
//!
//! - [`paths`]: the catalog of the map's paths;
//! - [`waves`]: waves, their counters, and the scheduler that runs them;
//! - [`mobs`]: units and how they move along their path;
//! - [`timing`]: what is proved of the scheduler over any run of frames.

pub mod error;
pub mod mobs;
pub mod paths;
pub mod sqrt;
pub mod tdcomponents;
pub mod time;
pub mod timing;
pub mod waves;
