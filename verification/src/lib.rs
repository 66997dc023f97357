//! Core of a health-monitoring engine.
//!
//! - [`schedule`] keeps a registry of periodically polled items, indexed by
//!   identifier and by interval, and answers which of them are due within a
//!   time window.
//! - [`monitor`] describes monitored targets and turns the outcome of one
//!   probe into a measurement.

pub mod monitor;
pub mod schedule;
