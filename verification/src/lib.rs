//! Core of a small laboratory simulation: a rat-like agent navigates a
//! tile grid toward food and away from hazards, driven by clamped integer
//! drive channels (appetite, smell, fear) that medicines modify.
//!
//! Continuous world coordinates are carried as integers in thousandths of a
//! world unit ("milli-units"), so that the mapping between world positions
//! and grid cells is exact arithmetic.

pub mod grid;
pub mod matrix;
pub mod medicine;
pub mod policy;
pub mod rat;
mod rng;
pub mod units;
