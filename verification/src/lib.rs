//! Verified core of a replay-file diagnostic driver.
//!
//! The library holds everything the driver decides or computes on plain
//! values: command-line parsing, the per-entity output decision, and the
//! rendering of the diagnostic lines. Opening the replay file and walking
//! its tick stream are left to the surrounding binary.

pub mod args;
pub mod decimal;
pub mod output;
pub mod visit;
