//! Monitored targets, the probes that check them and what a check yields.

pub mod collectors;
pub mod errors;
pub mod measure;
pub mod models;
