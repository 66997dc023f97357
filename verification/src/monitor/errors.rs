//! The errors that a measurement can end in.

use vstd::prelude::*;

verus! {

/// The failure of a resolver to turn a host name into addresses.
#[verifier::external_type_specification]
#[verifier::external_body]
pub struct ExResolveError(trust_dns_resolver::error::ResolveError);

/// The failure of an HTTP transfer, as the transport reports it.
#[verifier::external_type_specification]
#[verifier::external_body]
pub struct ExTransferError(curl::Error);

/// Every error that a measurement can end in, tagged with the kind of probe
/// that met it.
#[derive(Debug)]
pub enum CollectorError {
    /// An error occurred during a ping measurement.
    Ping(PingError),
    /// An error occurred during an HTTP measurement.
    Http(HttpError),
}

/// Errors that can occur during a ping measurement.
#[derive(Debug)]
pub enum PingError {
    /// DNS resolution failed for the target host.
    Dns(trust_dns_resolver::error::ResolveError),
    /// The host did not respond within the timeout.
    NoReply { addr: String },
    /// The target host is unreachable.
    Unreachable,
}

/// Errors that can occur during an HTTP measurement.
#[derive(Debug)]
pub enum HttpError {
    /// The response status code did not match the expected code.
    StatusMismatch { expected: u16, actual: u16 },
    /// The specified keyword was not found in the response body.
    KeywordNotFound { keyword: String },
    /// Any other error that occurred during the request.
    Unknown(curl::Error),
}

impl From<PingError> for CollectorError {
    fn from(error: PingError) -> (tagged: Self) {
        CollectorError::Ping(error)
    }
}

impl vstd::std_specs::convert::FromSpecImpl<PingError> for CollectorError {
    open spec fn obeys_from_spec() -> bool {
        true
    }

    /// A ping error is tagged as one of the ping probe.
    open spec fn from_spec(error: PingError) -> Self {
        CollectorError::Ping(error)
    }
}

impl From<HttpError> for CollectorError {
    fn from(error: HttpError) -> (tagged: Self) {
        CollectorError::Http(error)
    }
}

impl vstd::std_specs::convert::FromSpecImpl<HttpError> for CollectorError {
    open spec fn obeys_from_spec() -> bool {
        true
    }

    /// An HTTP error is tagged as one of the HTTP probe.
    open spec fn from_spec(error: HttpError) -> Self {
        CollectorError::Http(error)
    }
}

impl From<trust_dns_resolver::error::ResolveError> for PingError {
    fn from(error: trust_dns_resolver::error::ResolveError) -> (wrapped: Self) {
        PingError::Dns(error)
    }
}

impl vstd::std_specs::convert::FromSpecImpl<trust_dns_resolver::error::ResolveError> for PingError {
    open spec fn obeys_from_spec() -> bool {
        true
    }

    /// A failure of the resolver is a DNS error.
    open spec fn from_spec(error: trust_dns_resolver::error::ResolveError) -> Self {
        PingError::Dns(error)
    }
}

impl From<curl::Error> for HttpError {
    fn from(error: curl::Error) -> (wrapped: Self) {
        HttpError::Unknown(error)
    }
}

impl vstd::std_specs::convert::FromSpecImpl<curl::Error> for HttpError {
    open spec fn obeys_from_spec() -> bool {
        true
    }

    /// A failure of the transport is an error of unknown kind.
    open spec fn from_spec(error: curl::Error) -> Self {
        HttpError::Unknown(error)
    }
}

} // verus!
