use vstd::prelude::*;

use crate::monitor::errors::PingError;
use crate::monitor::models::{Data, PingConfig, PingData};

verus! {

/// What came back for one echo request.
#[derive(Debug)]
pub enum Reply {
    /// The target answered after `rtt` nanoseconds.
    Receive { rtt: u128 },
    /// The target at `addr` stayed idle until the timeout had passed.
    Idle { addr: String },
    /// The pinger broke off without a result.
    Lost,
}

/// `ResolveError::from` of a message: the error of a lookup that found no
/// records. The value is opaque, so nothing is claimed of it.
#[verifier::external_body]
fn no_records_found() -> trust_dns_resolver::error::ResolveError {
    trust_dns_resolver::error::ResolveError::from("No records found")
}

/// The ping probe.
pub struct Ping;

impl Ping {
    /// The time to wait for a reply, in milliseconds: a thousand times the
    /// configured timeout in seconds. There is none where the timeout is
    /// negative or its milliseconds do not fit.
    pub fn timeout_millis(config: &PingConfig) -> (millis: Option<u64>)
        ensures
            millis == if 0 <= config.timeout && config.timeout * 1000 <= u64::MAX {
                Some((config.timeout * 1000) as u64)
            } else {
                None
            },
    {
        if config.timeout < 0 {
            None
        } else {
            let seconds: u64 = config.timeout as u64;
            seconds.checked_mul(1000)
        }
    }

    /// The address to ping among those that the lookup of the host found:
    /// the first one. A lookup that found none is a DNS error.
    pub fn target(addresses: &Vec<String>) -> (target: Result<String, PingError>)
        ensures
            match target {
                Ok(address) => addresses.len() > 0 && address == addresses[0],
                Err(error) => addresses.len() == 0 && error is Dns,
            },
    {
        if addresses.len() > 0 {
            Ok(addresses[0].clone())
        } else {
            Err(PingError::from(no_records_found()))
        }
    }

    /// Judges the reply to one echo request, sent after a lookup that took
    /// `dns_lookup` nanoseconds.
    ///
    /// Only an answer of the target yields data. A target that stayed idle
    /// gives `NoReply` with its address, a pinger that broke off gives
    /// `Unreachable`.
    pub fn measure(dns_lookup: u128, reply: Reply) -> (result: Result<Data, PingError>)
        ensures
            result == match reply {
                Reply::Receive { rtt } => Ok::<Data, PingError>(
                    Data::Ping(PingData { dns_lookup, ping: rtt }),
                ),
                Reply::Idle { addr } => Err(PingError::NoReply { addr }),
                Reply::Lost => Err(PingError::Unreachable),
            },
    {
        match reply {
            Reply::Receive { rtt } => Ok(Data::Ping(PingData { dns_lookup, ping: rtt })),
            Reply::Idle { addr } => Err(PingError::NoReply { addr }),
            Reply::Lost => Err(PingError::Unreachable),
        }
    }
}

} // verus!
