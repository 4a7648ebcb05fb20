//! Onboard navigation core for a small agent on a bounded square grid.
//!
//! The agent sees the world only through a periodic egocentric radar window
//! of fixed odd side `N`. The modules below turn one raw scan into enemy
//! sightings and border knowledge, track enemies across ticks, score every
//! visible cell by proximity-derived danger, and pick the locally safest
//! one-tick action. All spatial data is kept in a single stable
//! ("north-aligned") frame; conversion happens once, at the sensing boundary.

use vstd::prelude::*;

pub mod coord;
pub mod tracker;
pub mod radar;
pub mod threat;
pub mod policy;
pub mod agent;

verus! {

/// Side of the square radar window (odd).
pub const N: usize = 7;

/// Half-width of the window: coordinates range over `[-HALF, HALF]`.
pub const HALF: i8 = 3;

/// Number of cells in the window.
pub const CELLS: usize = 49;

/// Reach radius: an enemy contributes threat to every cell strictly closer
/// than `REACH` (Chebyshev distance), decaying linearly with distance.
/// The metric and radius are a documented design choice: Chebyshev matches
/// the square window geometry and keeps the field monotone in distance.
pub const REACH: u32 = 3;

/// Sentinel score for masked (border) cells; strictly larger than any
/// threat total the window can accumulate, so a masked cell is never an
/// improvement over the current cell.
pub const SENTINEL: u32 = u32::MAX;

/// Largest enemy-set size `ThreatMap::calculate` accepts; keeps every cell
/// total well below `SENTINEL` and free of overflow.
pub const MAX_ENEMIES: usize = 100000;

} // verus!
