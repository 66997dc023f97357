use vstd::prelude::*;

use crate::monitor::collectors::text::{
    contains, decimal, decimal_text, lowercase, occurs_in, to_lowercase,
};
use crate::monitor::errors::HttpError;
use crate::monitor::models::{Data, Header, HttpConfig, HttpData};

verus! {

/// What the write callback of a transfer can answer in place of a count.
#[verifier::external_type_specification]
#[verifier::external_body]
pub struct ExWriteError(curl::easy::WriteError);

/// What lossy UTF-8 decoding makes of a sequence of bytes: the text they
/// encode, with each invalid sequence replaced by U+FFFD.
pub uninterp spec fn utf8_lossy(bytes: Seq<u8>) -> Seq<char>;

/// `String::from_utf8_lossy`: the result is the lossy decoding of the bytes,
/// which depends on the bytes alone.
#[verifier::external_body]
fn decode_utf8_lossy(bytes: &Vec<u8>) -> (text: String)
    ensures
        text@ == utf8_lossy(bytes@),
{
    String::from_utf8_lossy(bytes).into_owned()
}

/// The body of a response, as the bytes received so far.
#[derive(Debug, Default)]
pub struct ResponseBody(pub Vec<u8>);

impl ResponseBody {
    /// Takes in the next bytes of the body, all of them, and answers how
    /// many they were.
    pub fn write(&mut self, data: &[u8]) -> (written: Result<usize, curl::easy::WriteError>)
        ensures
            final(self).0@ == old(self).0@ + data@,
            written matches Ok(count) && count == data@.len(),
    {
        self.0.extend_from_slice(data);
        assert(self.0@ =~= old(self).0@ + data@);
        Ok(data.len())
    }

    /// The body as text.
    pub fn get_body(&self) -> (body: String)
        ensures
            body@ == utf8_lossy(self.0@),
    {
        decode_utf8_lossy(&self.0)
    }
}

/// The request methods that the probe knows.
#[derive(Debug, Clone, Copy, PartialEq, Eq)]
pub enum Method {
    Get,
    Post,
    Put,
    Patch,
    /// Asks for the head alone: no body is fetched.
    Head,
}

impl Method {
    /// The method with the lower-case name `name`, if there is one.
    pub open spec fn named(name: Seq<char>) -> Option<Method> {
        if name == seq!['g', 'e', 't'] {
            Some(Method::Get)
        } else if name == seq!['p', 'o', 's', 't'] {
            Some(Method::Post)
        } else if name == seq!['p', 'u', 't'] {
            Some(Method::Put)
        } else if name == seq!['p', 'a', 't', 'c', 'h'] {
            Some(Method::Patch)
        } else if name == seq!['h', 'e', 'a', 'd'] {
            Some(Method::Head)
        } else {
            None
        }
    }

    /// Finds the method by its name in lower case.
    pub fn parse(name: &String) -> (method: Option<Method>)
        ensures
            method == Method::named(name@),
    {
        proof {
            reveal_strlit("get");
            reveal_strlit("post");
            reveal_strlit("put");
            reveal_strlit("patch");
            reveal_strlit("head");
            assert("get"@ =~= seq!['g', 'e', 't']);
            assert("post"@ =~= seq!['p', 'o', 's', 't']);
            assert("put"@ =~= seq!['p', 'u', 't']);
            assert("patch"@ =~= seq!['p', 'a', 't', 'c', 'h']);
            assert("head"@ =~= seq!['h', 'e', 'a', 'd']);
        }
        if name.eq(&String::from_str("get")) {
            Some(Method::Get)
        } else if name.eq(&String::from_str("post")) {
            Some(Method::Post)
        } else if name.eq(&String::from_str("put")) {
            Some(Method::Put)
        } else if name.eq(&String::from_str("patch")) {
            Some(Method::Patch)
        } else if name.eq(&String::from_str("head")) {
            Some(Method::Head)
        } else {
            None
        }
    }
}

/// What the probe sends.
#[derive(Debug)]
pub struct Request {
    /// Where the request goes.
    pub url: String,
    /// The one custom header line, if one is configured.
    pub header: Option<String>,
    /// The seconds after which the transfer is given up.
    pub timeout: u64,
    /// Whether redirects are followed.
    pub follow_redirects: bool,
    /// The request method.
    pub method: Method,
    /// The request body, if one is configured.
    pub body: Option<String>,
}

/// How long the phases of a transfer took, in nanoseconds from its start.
#[derive(Debug, Clone, Copy, PartialEq, Eq)]
pub struct Timings {
    /// Until the name was resolved.
    pub dns_lookup: u128,
    /// Until the connection stood.
    pub connect: u128,
    /// Until the TLS handshake was done.
    pub tls_handshake: u128,
    /// Until the first byte of the response came in.
    pub first_byte: u128,
    /// Until the transfer was over.
    pub total: u128,
}

/// What came back for a request.
#[derive(Debug)]
pub struct Response {
    /// The status code of the last response.
    pub status: u32,
    /// The body received.
    pub body: ResponseBody,
    /// How long the transfer took.
    pub timings: Timings,
}

/// The text of a URL made of a protocol, in whatever case, a host, and a
/// port and a path where there are any.
pub open spec fn url_text(
    protocol: Seq<char>,
    host: Seq<char>,
    port: Option<u16>,
    path: Option<String>,
) -> Seq<char> {
    lowercase(protocol) + seq![':', '/', '/'] + host + match port {
        Some(port) => seq![':'] + decimal(port as nat),
        None => Seq::<char>::empty(),
    } + match path {
        Some(path) => path@,
        None => Seq::<char>::empty(),
    }
}

/// The line that sends `header`: its name, a colon and a space, its value.
pub open spec fn header_text(header: Header) -> Seq<char> {
    header.name@ + seq![':', ' '] + header.value@
}

/// The timeout of a transfer in whole seconds, for a configured number that
/// a negative value wraps around the 64 bits of.
pub open spec fn timeout_seconds(timeout: i32) -> int {
    if timeout >= 0 {
        timeout as int
    } else {
        timeout + 0x1_0000_0000_0000_0000
    }
}

/// The status code that an error reports for `code`: the code itself where
/// it lies between 0 and 65535, else the nearer of the two.
pub open spec fn reported_status(code: int) -> u16 {
    if code < 0 {
        0
    } else if code > 0xFFFF {
        0xFFFF
    } else {
        code as u16
    }
}

/// Whether `request` is what `config` asks to be sent to `host` with
/// `method`.
pub open spec fn asks_for(request: Request, host: Seq<char>, config: HttpConfig, method: Method) -> bool {
    &&& request.url@ == url_text(config.protocol@, host, config.port, config.path)
    &&& match config.header {
        Some(header) => request.header matches Some(line) && line@ == header_text(header),
        None => request.header is None,
    }
    &&& request.timeout == timeout_seconds(config.timeout)
    &&& request.follow_redirects == config.follow_redirects
    &&& request.method == method
    &&& request.body == config.body
}

/// Whether a keyword is asked for that `body` does not hold.
pub open spec fn lacks_keyword(keyword: Option<String>, body: Seq<char>) -> bool {
    match keyword {
        Some(keyword) => !occurs_in(keyword@, body),
        None => false,
    }
}

/// What is wrong with a response under `config`, given its status and its
/// body as text.
///
/// A status other than the expected one is a mismatch, whatever the two
/// numbers are; the error reports each as [`reported_status`] has it. With
/// the right status, a configured keyword that the body lacks is an error.
/// Nothing else is.
pub open spec fn checked(config: HttpConfig, status: u32, body: Seq<char>) -> Result<(), HttpError> {
    if status as int != config.expected_status_code as int {
        Err(
            HttpError::StatusMismatch {
                expected: reported_status(config.expected_status_code as int),
                actual: reported_status(status as int),
            },
        )
    } else if lacks_keyword(config.keyword, body) {
        Err(HttpError::KeywordNotFound { keyword: config.keyword->Some_0 })
    } else {
        Ok(())
    }
}

/// The data of a transfer with the given timings: the time of the transfer
/// itself is counted from the first byte of the response.
pub open spec fn reported(timings: Timings) -> Data {
    Data::Http(
        HttpData {
            dns_lookup: timings.dns_lookup,
            connect: timings.connect,
            tls_handshake: timings.tls_handshake,
            data_transfer: (timings.total - timings.first_byte) as u128,
        },
    )
}

/// What a response amounts to under `config`, given its status, its body as
/// text and its timings: what is wrong with it, or else its data.
pub open spec fn judged(config: HttpConfig, status: u32, body: Seq<char>, timings: Timings) -> Result<
    Data,
    HttpError,
> {
    match checked(config, status, body) {
        Err(error) => Err(error),
        Ok(()) => Ok(reported(timings)),
    }
}

/// The HTTP probe.
pub struct Http;

impl Http {
    /// The URL to request: protocol in lower case, host, port and path.
    pub fn url(host: &String, config: &HttpConfig) -> (url: String)
        ensures
            url@ == url_text(config.protocol@, host@, config.port, config.path),
    {
        proof {
            reveal_strlit("://");
            reveal_strlit(":");
            assert("://"@ =~= seq![':', '/', '/']);
            assert(":"@ =~= seq![':']);
        }
        let mut url = to_lowercase(config.protocol.as_str());
        url.append("://");
        url.append(host.as_str());
        match config.port {
            Some(port) => {
                url.append(":");
                let number = decimal_text(port);
                url.append(number.as_str());
            },
            None => {},
        }
        match &config.path {
            Some(path) => {
                url.append(path.as_str());
            },
            None => {},
        }
        assert(url@ =~= url_text(config.protocol@, host@, config.port, config.path));
        url
    }

    /// The header line that sends `header`.
    pub fn header_line(header: &Header) -> (line: String)
        ensures
            line@ == header_text(*header),
    {
        proof {
            reveal_strlit(": ");
            assert(": "@ =~= seq![':', ' ']);
        }
        let mut line = header.name.clone();
        line.append(": ");
        line.append(header.value.as_str());
        line
    }

    /// The seconds after which a transfer under `config` is given up.
    pub fn timeout(config: &HttpConfig) -> (seconds: u64)
        ensures
            seconds == timeout_seconds(config.timeout),
    {
        if config.timeout >= 0 {
            config.timeout as u64
        } else {
            u64::MAX - ((-(config.timeout + 1)) as u64)
        }
    }

    /// The method that `config` names, in whatever case, if the probe knows
    /// it.
    pub fn method(config: &HttpConfig) -> (method: Option<Method>)
        ensures
            method == Method::named(lowercase(config.method@)),
    {
        let name = to_lowercase(config.method.as_str());
        Method::parse(&name)
    }

    /// What to send to `host` under `config`. There is nothing to send
    /// where the probe does not know the configured method.
    pub fn request(host: &String, config: &HttpConfig) -> (request: Option<Request>)
        ensures
            match request {
                Some(request) => Method::named(lowercase(config.method@)) matches Some(method)
                    && asks_for(request, host@, *config, method),
                None => Method::named(lowercase(config.method@)) is None,
            },
    {
        match Http::method(config) {
            Some(method) => {
                let header = match &config.header {
                    Some(header) => Some(Http::header_line(header)),
                    None => None,
                };
                let body = match &config.body {
                    Some(body) => Some(body.clone()),
                    None => None,
                };
                Some(
                    Request {
                        url: Http::url(host, config),
                        header,
                        timeout: Http::timeout(config),
                        follow_redirects: config.follow_redirects,
                        method,
                        body,
                    },
                )
            },
            None => None,
        }
    }

    /// The status code that an error reports for the status of a response.
    pub fn actual_status(status: u32) -> (code: u16)
        ensures
            code == reported_status(status as int),
    {
        if status > 0xFFFF {
            0xFFFF
        } else {
            status as u16
        }
    }

    /// The status code that an error reports for the one `config` expects.
    pub fn expected_status(config: &HttpConfig) -> (code: u16)
        ensures
            code == reported_status(config.expected_status_code as int),
    {
        let expected = config.expected_status_code;
        if expected < 0 {
            0
        } else if expected > 0xFFFF {
            0xFFFF
        } else {
            expected as u16
        }
    }

    /// Checks the status and the body, as text, of a response.
    pub fn check(config: &HttpConfig, status: u32, body: &str) -> (result: Result<(), HttpError>)
        ensures
            result == checked(*config, status, body@),
    {
        if status as i64 != config.expected_status_code as i64 {
            return Err(
                HttpError::StatusMismatch {
                    expected: Http::expected_status(config),
                    actual: Http::actual_status(status),
                },
            );
        }
        match &config.keyword {
            Some(keyword) => {
                if !contains(body, keyword.as_str()) {
                    return Err(HttpError::KeywordNotFound { keyword: keyword.clone() });
                }
            },
            None => {},
        }
        Ok(())
    }

    /// The data that a transfer with the given timings reports.
    pub fn data(timings: &Timings) -> (data: Data)
        requires
            timings.first_byte <= timings.total,
        ensures
            data == reported(*timings),
    {
        Data::Http(
            HttpData {
                dns_lookup: timings.dns_lookup,
                connect: timings.connect,
                tls_handshake: timings.tls_handshake,
                data_transfer: timings.total - timings.first_byte,
            },
        )
    }

    /// Judges a response by its status, its body as text, and its timings.
    pub fn judge(config: &HttpConfig, status: u32, body: &str, timings: &Timings) -> (result: Result<
        Data,
        HttpError,
    >)
        requires
            timings.first_byte <= timings.total,
        ensures
            result == judged(*config, status, body@, *timings),
    {
        match Http::check(config, status, body) {
            Err(error) => Err(error),
            Ok(()) => Ok(Http::data(timings)),
        }
    }

    /// Judges the response to a request sent under `config`: its body is
    /// read as text, see [`ResponseBody::get_body`], and judged with the
    /// status and the timings.
    pub fn measure(config: &HttpConfig, response: &Response) -> (result: Result<Data, HttpError>)
        requires
            response.timings.first_byte <= response.timings.total,
        ensures
            result == judged(
                *config,
                response.status,
                utf8_lossy(response.body.0@),
                response.timings,
            ),
    {
        let body = response.body.get_body();
        Http::judge(config, response.status, body.as_str(), &response.timings)
    }
}

} // verus!
