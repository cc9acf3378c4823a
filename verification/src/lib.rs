//! An action-sequencing engine: an entity's behavior is authored as a linear
//! program of action requests, and a per-entity driver advances the active
//! action one tick at a time without ever blocking the caller's own loop.
//!
//! All quantities are integers: distances are measured in milliunits
//! (one thousandth of a world unit), speeds in units per second, and tick
//! times in milliseconds, so one tick at speed `s` covers exactly
//! `dt * s` milliunits.

pub mod action;
pub mod driver;
pub mod laws;
pub mod math;
pub mod program;
