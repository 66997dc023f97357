use vstd::prelude::*;

use crate::schedule::Schedulable;

verus! {

/// A host that is checked periodically.
#[derive(Debug)]
pub struct Monitor {
    /// Monitor identifier.
    pub id: i64,
    /// Host without protocol specified.
    pub host: String,
    /// How the host is checked.
    pub config: Config,
}

/// How a monitor checks its host: exactly one of the two probes.
#[derive(Debug)]
pub enum Config {
    /// The host is pinged.
    Ping(PingConfig),
    /// The host is sent an HTTP request.
    Http(HttpConfig),
}

/// Configuration of a ping monitor.
#[derive(Debug)]
pub struct PingConfig {
    /// How often the monitor should perform a check, in seconds.
    pub check_frequency: i64,
    /// Number of consecutive successful checks required to confirm a state change.
    pub confirmation_period: i64,
    /// Number of consecutive failed checks required to consider the monitor recovered.
    pub recovery_period: i64,
    /// Maximum time, in seconds, to wait for a ping response before timing out.
    pub timeout: i64,
}

/// Configuration of an HTTP monitor.
#[derive(Debug)]
pub struct HttpConfig {
    /// How often the monitor should perform a check, in seconds.
    pub check_frequency: i64,
    /// Number of consecutive successful checks required to confirm a state change.
    pub confirmation_period: i64,
    /// Number of consecutive failed checks required to consider the monitor recovered.
    pub recovery_period: i64,
    /// Maximum time, in seconds, to wait for an HTTP response before timing out.
    pub timeout: i32,
    /// HTTP method to use (e.g., `GET`, `POST`).
    pub method: String,
    /// Protocol to use (`HTTP` or `HTTPS`).
    pub protocol: String,
    /// Optional port number. Without one the protocol's own port is used.
    pub port: Option<u16>,
    /// Optional request path (e.g., "/health").
    pub path: Option<String>,
    /// Optional request body for methods like `POST` or `PUT`.
    pub body: Option<String>,
    /// Optional keyword to search for in the response body.
    pub keyword: Option<String>,
    /// Expected HTTP status code.
    pub expected_status_code: i32,
    /// Whether to follow HTTP redirects.
    pub follow_redirects: bool,
    /// Whether to keep cookies when following redirects.
    pub keep_cookies_on_redirects: bool,
    /// Optional HTTP header to include in the request.
    pub header: Option<Header>,
}

/// A single HTTP header (name-value pair).
#[derive(Debug)]
pub struct Header {
    /// The name of the header (e.g., `"Content-Type"`).
    pub name: String,
    /// The value of the header (e.g., `"application/json"`).
    pub value: String,
}

impl Config {
    /// How often the configured check is performed, in seconds.
    pub open spec fn check_frequency(&self) -> i64 {
        match self {
            Config::Ping(config) => config.check_frequency,
            Config::Http(config) => config.check_frequency,
        }
    }
}

impl Default for PingConfig {
    /// A configuration with every period and the timeout at zero.
    fn default() -> (config: Self)
        ensures
            config.check_frequency == 0,
            config.confirmation_period == 0,
            config.recovery_period == 0,
            config.timeout == 0,
    {
        PingConfig { check_frequency: 0, confirmation_period: 0, recovery_period: 0, timeout: 0 }
    }
}

impl Default for HttpConfig {
    /// A configuration with every number at zero, every text empty, nothing
    /// optional present, and redirects and cookies switched off.
    fn default() -> (config: Self)
        ensures
            config.check_frequency == 0,
            config.confirmation_period == 0,
            config.recovery_period == 0,
            config.timeout == 0,
            config.method@ == Seq::<char>::empty(),
            config.protocol@ == Seq::<char>::empty(),
            config.port is None,
            config.path is None,
            config.body is None,
            config.keyword is None,
            config.expected_status_code == 0,
            !config.follow_redirects,
            !config.keep_cookies_on_redirects,
            config.header is None,
    {
        HttpConfig {
            check_frequency: 0,
            confirmation_period: 0,
            recovery_period: 0,
            timeout: 0,
            method: String::new(),
            protocol: String::new(),
            port: None,
            path: None,
            body: None,
            keyword: None,
            expected_status_code: 0,
            follow_redirects: false,
            keep_cookies_on_redirects: false,
            header: None,
        }
    }
}

/// A monitor is scheduled under its own identifier, at the check frequency
/// of its configuration.
impl Schedulable for Monitor {
    open spec fn id(&self) -> i64 {
        self.id
    }

    open spec fn interval(&self) -> i64 {
        self.config.check_frequency()
    }

    fn get_id(&self) -> (id: i64) {
        self.id
    }

    fn get_interval(&self) -> (interval: i64) {
        match &self.config {
            Config::Ping(config) => config.check_frequency,
            Config::Http(config) => config.check_frequency,
        }
    }
}

} // verus!
