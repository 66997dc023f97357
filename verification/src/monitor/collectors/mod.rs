//! The probes: what each sends and how it judges what came back.

mod http;
mod ping;
mod text;

pub use http::{
    asks_for, checked, header_text, judged, lacks_keyword, reported, reported_status, timeout_seconds, url_text, utf8_lossy, Http,
    Method, Request, Response, ResponseBody, Timings,
};
pub use ping::{Ping, Reply};
pub use text::{decimal, decimal_text, digit, lowercase, occurs_in};
