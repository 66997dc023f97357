use vstd::prelude::*;

use crate::monitor::errors::CollectorError;

verus! {

/// A single measurement performed by a monitor: when it was taken, by which
/// monitor, and either the collected data or the error that prevented it.
#[derive(Debug)]
pub struct Measurement {
    /// Unix timestamp when the measurement was taken.
    pub timestamp: i64,
    /// Identifier of the monitor that produced this measurement.
    pub monitor_id: i64,
    /// Measurement data, if the check went through.
    pub data: Option<Data>,
    /// Error that occurred during the measurement.
    pub error: Option<CollectorError>,
}

/// The collected data of a measurement, by the kind of probe.
#[derive(Debug)]
pub enum Data {
    /// Data collected by a ping probe.
    Ping(PingData),
    /// Data collected by an HTTP probe.
    Http(HttpData),
}

/// Timings of a ping check, in nanoseconds.
#[derive(Debug, Default, Clone, Copy, PartialEq, Eq)]
pub struct PingData {
    /// Time spent on DNS resolution.
    pub dns_lookup: u128,
    /// Round-trip time of the echo.
    pub ping: u128,
}

/// Timings of an HTTP check, in nanoseconds.
#[derive(Debug, Default, Clone, Copy, PartialEq, Eq)]
pub struct HttpData {
    /// Time spent on DNS resolution.
    pub dns_lookup: u128,
    /// Time spent establishing the TCP connection.
    pub connect: u128,
    /// Time spent performing the TLS handshake.
    pub tls_handshake: u128,
    /// Time spent transferring the response, from its first byte on.
    pub data_transfer: u128,
}

} // verus!
