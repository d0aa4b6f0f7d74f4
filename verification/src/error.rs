//! The failures that decoding a response or following a redirect can end in.

use vstd::prelude::*;
use vstd::std_specs::convert::FromSpecImpl;

verus! {

/// Errors than can occur while parsing the response from the server.
#[derive(Debug, Clone, Copy, PartialEq, Eq, Structural)]
pub enum InvalidResponseKind {
    /// Invalid or missing Location header in redirection
    LocationHeader,
    /// Invalid redirection URL
    RedirectionUrl,
    /// Status line
    StatusLine,
    /// Status code
    StatusCode,
    /// Error parsing header
    Header,
    /// Error decoding chunk size
    ChunkSize,
    /// Error decoding chunk
    Chunk,
    /// Invalid Content-Length header
    ContentLength,
}

impl InvalidResponseKind {
    /// The text that describes this kind.
    pub open spec fn text(self) -> Seq<char> {
        match self {
            InvalidResponseKind::LocationHeader => "missing or invalid location header"@,
            InvalidResponseKind::RedirectionUrl => "invalid redirection url"@,
            InvalidResponseKind::StatusLine => "invalid status line"@,
            InvalidResponseKind::StatusCode => "invalid status code"@,
            InvalidResponseKind::Header => "invalid header"@,
            InvalidResponseKind::ChunkSize => "invalid chunk size"@,
            InvalidResponseKind::Chunk => "invalid chunk"@,
            InvalidResponseKind::ContentLength => "invalid content length"@,
        }
    }

    /// Describes this kind in words.
    pub fn message(&self) -> (r: String)
        ensures
            r@ == self.text(),
    {
        match self {
            InvalidResponseKind::LocationHeader => "missing or invalid location header".to_owned(),
            InvalidResponseKind::RedirectionUrl => "invalid redirection url".to_owned(),
            InvalidResponseKind::StatusLine => "invalid status line".to_owned(),
            InvalidResponseKind::StatusCode => "invalid status code".to_owned(),
            InvalidResponseKind::Header => "invalid header".to_owned(),
            InvalidResponseKind::ChunkSize => "invalid chunk size".to_owned(),
            InvalidResponseKind::Chunk => "invalid chunk".to_owned(),
            InvalidResponseKind::ContentLength => "invalid content length".to_owned(),
        }
    }
}

/// Common errors that can occur during HTTP requests.
#[derive(Debug)]
pub enum ErrorKind {
    /// CONNECT is not supported.
    ConnectNotSupported,
    /// Error generated by the `http` crate.
    Http(http::Error),
    /// IO Error
    Io(std::io::Error),
    /// Invalid base URL given to the Request.
    InvalidBaseUrl,
    /// An URL with an invalid host was found while processing the request.
    InvalidUrlHost,
    /// The URL scheme is unknown and the port is missing.
    InvalidUrlPort,
    /// Server sent an invalid response.
    InvalidResponse(InvalidResponseKind),
    /// Too many redirections
    TooManyRedirections,
    /// JSON decoding/encoding error.
    Json(serde_json::Error),
    /// TLS error encountered while connecting to an https server.
    Tls(native_tls::Error),
}

impl ErrorKind {
    /// Whether this kind wraps a failure of a lower layer.
    pub open spec fn is_wrapped(self) -> bool {
        self is Http || self is Io || self is Json || self is Tls
    }

    /// Whether `detail` is the text that the wrapped failure shows of itself.
    pub open spec fn shows(self, detail: String) -> bool {
        match self {
            ErrorKind::Http(e) => vstd::string::to_string_from_display_ensures::<http::Error>(
                &e,
                detail,
            ),
            ErrorKind::Io(e) => vstd::string::to_string_from_display_ensures::<std::io::Error>(
                &e,
                detail,
            ),
            ErrorKind::Json(e) => vstd::string::to_string_from_display_ensures::<
                serde_json::Error,
            >(&e, detail),
            ErrorKind::Tls(e) => vstd::string::to_string_from_display_ensures::<
                native_tls::Error,
            >(&e, detail),
            _ => false,
        }
    }

    /// The short description of a kind that wraps nothing.
    pub open spec fn short_text(self) -> Seq<char> {
        match self {
            ErrorKind::ConnectNotSupported => "CONNECT is not supported"@,
            ErrorKind::InvalidBaseUrl => "invalid base url"@,
            ErrorKind::InvalidUrlHost => "url has no host"@,
            ErrorKind::InvalidUrlPort => "url has no port"@,
            ErrorKind::InvalidResponse(_) => "invalid response"@,
            ErrorKind::TooManyRedirections => "too many redirections"@,
            _ => Seq::empty(),
        }
    }

    /// The text of a kind that wraps nothing, and the leading text of one that wraps a
    /// failure of a lower layer.
    pub open spec fn text(self) -> Seq<char> {
        match self {
            ErrorKind::ConnectNotSupported => "CONNECT is not supported"@,
            ErrorKind::InvalidBaseUrl => "Invalid base URL"@,
            ErrorKind::InvalidUrlHost => "URL is missing a host"@,
            ErrorKind::InvalidUrlPort => "URL is missing a port"@,
            ErrorKind::InvalidResponse(k) => "InvalidResponse: "@ + k.text(),
            ErrorKind::TooManyRedirections => "Too many redirections"@,
            ErrorKind::Http(_) => "Http Error: "@,
            ErrorKind::Io(_) => "Io Error: "@,
            ErrorKind::Json(_) => "Json Error: "@,
            ErrorKind::Tls(_) => "Tls Error: "@,
        }
    }
}

/// A type that contains all the errors that can possibly occur while accessing an HTTP server.
#[derive(Debug)]
pub struct ClientError(pub Box<ErrorKind>);

impl ClientError {
    /// Get a reference to the `ErrorKind` inside.
    pub fn kind(&self) -> (r: &ErrorKind)
        ensures
            *r == *self.0,
    {
        &*self.0
    }

    /// Consume this error and get the `ErrorKind` inside.
    pub fn into_kind(self) -> (r: ErrorKind)
        ensures
            r == *self.0,
    {
        *self.0
    }

    /// The short description of a kind that wraps nothing; `None` for a kind that wraps a
    /// failure of a lower layer, whose description is that failure's own.
    pub fn description(&self) -> (r: Option<String>)
        ensures
            r is None <==> self.0.is_wrapped(),
            r matches Some(text) ==> text@ == self.0.short_text(),
    {
        match &*self.0 {
            ErrorKind::ConnectNotSupported => Some("CONNECT is not supported".to_owned()),
            ErrorKind::InvalidBaseUrl => Some("invalid base url".to_owned()),
            ErrorKind::InvalidUrlHost => Some("url has no host".to_owned()),
            ErrorKind::InvalidUrlPort => Some("url has no port".to_owned()),
            ErrorKind::InvalidResponse(_) => Some("invalid response".to_owned()),
            ErrorKind::TooManyRedirections => Some("too many redirections".to_owned()),
            _ => None,
        }
    }

    /// Describes the error in words: the fixed text of its kind, followed, for a kind that
    /// wraps a failure of a lower layer, by that failure's own text.
    pub fn message(&self) -> (r: String)
        ensures
            !self.0.is_wrapped() ==> r@ == self.0.text(),
            self.0.is_wrapped() ==> exists|detail: String|
                r@ == self.0.text() + detail@ && #[trigger] self.0.shows(detail),
    {
        match &*self.0 {
            ErrorKind::ConnectNotSupported => "CONNECT is not supported".to_owned(),
            ErrorKind::InvalidBaseUrl => "Invalid base URL".to_owned(),
            ErrorKind::InvalidUrlHost => "URL is missing a host".to_owned(),
            ErrorKind::InvalidUrlPort => "URL is missing a port".to_owned(),
            ErrorKind::InvalidResponse(k) => with_detail("InvalidResponse: ", &k.message()),
            ErrorKind::TooManyRedirections => "Too many redirections".to_owned(),
            ErrorKind::Http(e) => {
                let detail = e.to_string();
                let out = with_detail("Http Error: ", &detail);
                assert(self.0.shows(detail));
                out
            },
            ErrorKind::Io(e) => {
                let detail = e.to_string();
                let out = with_detail("Io Error: ", &detail);
                assert(self.0.shows(detail));
                out
            },
            ErrorKind::Json(e) => {
                let detail = e.to_string();
                let out = with_detail("Json Error: ", &detail);
                assert(self.0.shows(detail));
                out
            },
            ErrorKind::Tls(e) => {
                let detail = e.to_string();
                let out = with_detail("Tls Error: ", &detail);
                assert(self.0.shows(detail));
                out
            },
        }
    }
}

/// A fixed text followed by a detail.
fn with_detail(head: &str, detail: &String) -> (r: String)
    ensures
        r@ == head@ + detail@,
{
    let mut out = head.to_owned();
    vstd::string::StringExecFns::append(&mut out, detail.as_str());
    out
}

impl From<ErrorKind> for ClientError {
    fn from(err: ErrorKind) -> (r: ClientError) {
        ClientError(Box::new(err))
    }
}

impl FromSpecImpl<ErrorKind> for ClientError {
    open spec fn obeys_from_spec() -> bool {
        true
    }

    open spec fn from_spec(err: ErrorKind) -> ClientError {
        ClientError(Box::new(err))
    }
}

impl From<InvalidResponseKind> for ClientError {
    fn from(kind: InvalidResponseKind) -> (r: ClientError) {
        ClientError(Box::new(ErrorKind::InvalidResponse(kind)))
    }
}

impl FromSpecImpl<InvalidResponseKind> for ClientError {
    open spec fn obeys_from_spec() -> bool {
        true
    }

    open spec fn from_spec(kind: InvalidResponseKind) -> ClientError {
        ClientError(Box::new(ErrorKind::InvalidResponse(kind)))
    }
}

impl From<std::io::Error> for ClientError {
    fn from(err: std::io::Error) -> (r: ClientError) {
        ClientError(Box::new(ErrorKind::Io(err)))
    }
}

impl FromSpecImpl<std::io::Error> for ClientError {
    open spec fn obeys_from_spec() -> bool {
        true
    }

    open spec fn from_spec(err: std::io::Error) -> ClientError {
        ClientError(Box::new(ErrorKind::Io(err)))
    }
}

impl From<http::Error> for ClientError {
    fn from(err: http::Error) -> (r: ClientError) {
        ClientError(Box::new(ErrorKind::Http(err)))
    }
}

impl FromSpecImpl<http::Error> for ClientError {
    open spec fn obeys_from_spec() -> bool {
        true
    }

    open spec fn from_spec(err: http::Error) -> ClientError {
        ClientError(Box::new(ErrorKind::Http(err)))
    }
}

impl From<native_tls::Error> for ClientError {
    fn from(err: native_tls::Error) -> (r: ClientError) {
        ClientError(Box::new(ErrorKind::Tls(err)))
    }
}

impl FromSpecImpl<native_tls::Error> for ClientError {
    open spec fn obeys_from_spec() -> bool {
        true
    }

    open spec fn from_spec(err: native_tls::Error) -> ClientError {
        ClientError(Box::new(ErrorKind::Tls(err)))
    }
}

impl From<serde_json::Error> for ClientError {
    fn from(err: serde_json::Error) -> (r: ClientError) {
        ClientError(Box::new(ErrorKind::Json(err)))
    }
}

impl FromSpecImpl<serde_json::Error> for ClientError {
    open spec fn obeys_from_spec() -> bool {
        true
    }

    open spec fn from_spec(err: serde_json::Error) -> ClientError {
        ClientError(Box::new(ErrorKind::Json(err)))
    }
}

} // verus!
