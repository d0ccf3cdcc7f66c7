//! Gauge-weight accounting with time-decaying voting power.
//!
//! Participants delegate voting power to named gauges. A gauge's weight is a
//! linear function of time: a bias that decays by a per-period slope, floored
//! at zero, with future slope reductions scheduled at the period in which a
//! voter's lock expires. The controller answers weight queries at arbitrary
//! timestamps by projecting the stored checkpoints forward, without replaying
//! history.

pub mod errors;
pub mod fixed;
pub mod schedule;
pub mod series;
pub mod msg;
pub mod controller;
