//! Turning the outcome of one probe into a measurement.

use vstd::prelude::*;

use crate::monitor::errors::{CollectorError, HttpError, PingError};
use crate::monitor::models::{Config, Data, Measurement, Monitor};

verus! {

/// What the probe of a monitor came back with: the data it collected or the
/// error it met, by the kind of probe.
#[derive(Debug)]
pub enum Outcome {
    /// The ping probe has run.
    Ping(Result<Data, PingError>),
    /// The HTTP probe has run.
    Http(Result<Data, HttpError>),
}

impl Outcome {
    /// The data that the probe collected, if it collected any.
    pub open spec fn data(self) -> Option<Data> {
        match self {
            Outcome::Ping(Ok(data)) => Some(data),
            Outcome::Http(Ok(data)) => Some(data),
            _ => None,
        }
    }

    /// The error that the probe met, if it met one, tagged with the kind of
    /// probe.
    pub open spec fn error(self) -> Option<CollectorError> {
        match self {
            Outcome::Ping(Err(error)) => Some(CollectorError::Ping(error)),
            Outcome::Http(Err(error)) => Some(CollectorError::Http(error)),
            _ => None,
        }
    }

    /// Whether the outcome is one of the probe that `config` names.
    pub open spec fn is_of(self, config: Config) -> bool {
        self is Ping <==> config is Ping
    }

    /// Tells whether the outcome is one of the probe that `config` names.
    pub fn belongs_to(&self, config: &Config) -> (belongs: bool)
        ensures
            belongs == self.is_of(*config),
    {
        match (self, config) {
            (Outcome::Ping(_), Config::Ping(_)) => true,
            (Outcome::Http(_), Config::Http(_)) => true,
            _ => false,
        }
    }

    /// An outcome holds data or an error, never both and never neither.
    pub proof fn lemma_data_or_error(self)
        ensures
            self.data() is Some <==> self.error() is None,
    {
    }
}

/// `OffsetDateTime::now_utc` and `OffsetDateTime::unix_timestamp` of the
/// `time` crate: the seconds since the Unix epoch on the system clock. The
/// clock decides, so nothing is claimed of the number.
#[verifier::external_body]
fn unix_timestamp_now() -> i64 {
    time::OffsetDateTime::now_utc().unix_timestamp()
}

impl Measurement {
    /// A measurement holds data or an error, never both and never neither.
    pub open spec fn well_formed(&self) -> bool {
        self.data is Some <==> self.error is None
    }

    /// The measurement that `monitor_id` took at `timestamp` and that ended
    /// in `outcome`.
    pub fn record(timestamp: i64, monitor_id: i64, outcome: Outcome) -> (measurement: Measurement)
        ensures
            measurement.timestamp == timestamp,
            measurement.monitor_id == monitor_id,
            measurement.data == outcome.data(),
            measurement.error == outcome.error(),
            measurement.well_formed(),
    {
        let result: Result<Data, CollectorError> = match outcome {
            Outcome::Ping(Ok(data)) => Ok(data),
            Outcome::Ping(Err(error)) => Err(CollectorError::from(error)),
            Outcome::Http(Ok(data)) => Ok(data),
            Outcome::Http(Err(error)) => Err(CollectorError::from(error)),
        };
        match result {
            Ok(data) => Measurement { timestamp, monitor_id, data: Some(data), error: None },
            Err(error) => Measurement { timestamp, monitor_id, data: None, error: Some(error) },
        }
    }
}

impl Monitor {
    /// Completes a measurement of this monitor: stamps the outcome of its
    /// probe with the current time.
    ///
    /// The outcome is that of the probe which the monitor's configuration
    /// names. Whatever that probe came back with, a measurement is returned:
    /// a failure of the probe is recorded in it, tagged with the kind of the
    /// monitor's probe, and never passed on.
    pub fn measure(&self, outcome: Outcome) -> (measurement: Measurement)
        requires
            outcome.is_of(self.config),
        ensures
            measurement.monitor_id == self.id,
            measurement.data == outcome.data(),
            measurement.error == outcome.error(),
            measurement.error matches Some(error) ==> (error is Ping <==> self.config is Ping),
            measurement.well_formed(),
    {
        Measurement::record(unix_timestamp_now(), self.id, outcome)
    }
}

} // verus!
