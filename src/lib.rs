//! Start/stop scheduling of a fleet of virtual machines from schedule annotations.
//!
//! Annotations are parsed into structured schedules, each machine is matched
//! against an evaluation instant, and the fleet is partitioned into the machines
//! to start and the machines to stop.

pub mod text;
pub mod clock;
pub mod schedule;
pub mod evaluate;
pub mod fleet;
