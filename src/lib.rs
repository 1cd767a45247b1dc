//! Neighbor lists for molecular dynamics: a brute-force all-pairs enumerator
//! and a buffered directed Verlet list, behind one facade, with the cutoff,
//! countdown and statistics policies that drive them.
//!
//! Lengths are fixed-point integers in a unit chosen by the caller, so that
//! every distance comparison is exact.

pub mod geometry;
pub mod statistics;
pub mod cutoffs;
pub mod countdown;
pub mod all_pairs;
pub mod directed_linked_list;
pub mod neighbors;
mod parallel;

pub use geometry::{ParticleVec, UnitCell, Vector3D};
pub use statistics::Statistics;
pub use cutoffs::Cutoffs;
pub use countdown::{CountDown, CountDownState};
pub use all_pairs::{AllPairs, AllPairsState};
pub use directed_linked_list::{DirectedLinkedList, DirectedState, SanityViolation};
pub use neighbors::Neighbors;
