//! The data that a monitor is made of and that a measurement carries.

mod measurement;
mod monitor;

pub use measurement::{Data, HttpData, Measurement, PingData};
pub use monitor::{Config, Header, HttpConfig, Monitor, PingConfig};
