//! Error kinds of the client, how transport, I/O and parse failures are
//! classified into them, and which exception each one is raised as.
use crate::text::{concat2, decimal, find_sub, str_contains, str_eq, str_lower, to_lower};
use vstd::prelude::*;

verus! {

/// What went wrong.
#[derive(Debug)]
pub enum ErrorKind {
    Request,
    Transport,
    Connect,
    Read,
    Write,
    Close,
    Proxy,
    UnsupportedProtocol,
    Protocol,
    LocalProtocol,
    RemoteProtocol,
    Timeout,
    ConnectTimeout,
    ReadTimeout,
    WriteTimeout,
    PoolTimeout,
    Status(u16),
    Redirect,
    Decode,
    InvalidUrl,
    InvalidHeader,
    Stream,
    StreamConsumed,
    StreamClosed,
    ResponseNotRead,
    RequestNotRead,
    CookieConflict,
    Other(String),
}

/// An error: its kind and message.
#[derive(Debug)]
pub struct Error {
    pub kind: ErrorKind,
    pub message: String,
}

impl Error {
    /// An error of the given kind.
    pub fn new(kind: ErrorKind, message: String) -> (e: Error)
        ensures
            e.kind == kind,
            e.message@ == message@,
    {
        Error { kind, message }
    }

    /// An error of kind `Request`.
    pub fn request(message: String) -> (e: Error)
        ensures
            e.kind == ErrorKind::Request,
            e.message@ == message@,
    {
        Error::new(ErrorKind::Request, message)
    }

    /// An error of kind `Transport`.
    pub fn transport(message: String) -> (e: Error)
        ensures
            e.kind == ErrorKind::Transport,
            e.message@ == message@,
    {
        Error::new(ErrorKind::Transport, message)
    }

    /// An error of kind `Connect`.
    pub fn connect(message: String) -> (e: Error)
        ensures
            e.kind == ErrorKind::Connect,
            e.message@ == message@,
    {
        Error::new(ErrorKind::Connect, message)
    }

    /// An error of kind `Read`.
    pub fn read(message: String) -> (e: Error)
        ensures
            e.kind == ErrorKind::Read,
            e.message@ == message@,
    {
        Error::new(ErrorKind::Read, message)
    }

    /// An error of kind `Write`.
    pub fn write(message: String) -> (e: Error)
        ensures
            e.kind == ErrorKind::Write,
            e.message@ == message@,
    {
        Error::new(ErrorKind::Write, message)
    }

    /// An error of kind `Close`.
    pub fn close(message: String) -> (e: Error)
        ensures
            e.kind == ErrorKind::Close,
            e.message@ == message@,
    {
        Error::new(ErrorKind::Close, message)
    }

    /// An error of kind `Proxy`.
    pub fn proxy(message: String) -> (e: Error)
        ensures
            e.kind == ErrorKind::Proxy,
            e.message@ == message@,
    {
        Error::new(ErrorKind::Proxy, message)
    }

    /// An error of kind `UnsupportedProtocol`.
    pub fn unsupported_protocol(message: String) -> (e: Error)
        ensures
            e.kind == ErrorKind::UnsupportedProtocol,
            e.message@ == message@,
    {
        Error::new(ErrorKind::UnsupportedProtocol, message)
    }

    /// An error of kind `Protocol`.
    pub fn protocol(message: String) -> (e: Error)
        ensures
            e.kind == ErrorKind::Protocol,
            e.message@ == message@,
    {
        Error::new(ErrorKind::Protocol, message)
    }

    /// An error of kind `LocalProtocol`.
    pub fn local_protocol(message: String) -> (e: Error)
        ensures
            e.kind == ErrorKind::LocalProtocol,
            e.message@ == message@,
    {
        Error::new(ErrorKind::LocalProtocol, message)
    }

    /// An error of kind `RemoteProtocol`.
    pub fn remote_protocol(message: String) -> (e: Error)
        ensures
            e.kind == ErrorKind::RemoteProtocol,
            e.message@ == message@,
    {
        Error::new(ErrorKind::RemoteProtocol, message)
    }

    /// An error of kind `Timeout`.
    pub fn timeout(message: String) -> (e: Error)
        ensures
            e.kind == ErrorKind::Timeout,
            e.message@ == message@,
    {
        Error::new(ErrorKind::Timeout, message)
    }

    /// An error of kind `ConnectTimeout`.
    pub fn connect_timeout(message: String) -> (e: Error)
        ensures
            e.kind == ErrorKind::ConnectTimeout,
            e.message@ == message@,
    {
        Error::new(ErrorKind::ConnectTimeout, message)
    }

    /// An error of kind `ReadTimeout`.
    pub fn read_timeout(message: String) -> (e: Error)
        ensures
            e.kind == ErrorKind::ReadTimeout,
            e.message@ == message@,
    {
        Error::new(ErrorKind::ReadTimeout, message)
    }

    /// An error of kind `WriteTimeout`.
    pub fn write_timeout(message: String) -> (e: Error)
        ensures
            e.kind == ErrorKind::WriteTimeout,
            e.message@ == message@,
    {
        Error::new(ErrorKind::WriteTimeout, message)
    }

    /// An error of kind `PoolTimeout`.
    pub fn pool_timeout(message: String) -> (e: Error)
        ensures
            e.kind == ErrorKind::PoolTimeout,
            e.message@ == message@,
    {
        Error::new(ErrorKind::PoolTimeout, message)
    }

    /// An error of kind `Redirect`.
    pub fn redirect(message: String) -> (e: Error)
        ensures
            e.kind == ErrorKind::Redirect,
            e.message@ == message@,
    {
        Error::new(ErrorKind::Redirect, message)
    }

    /// An error of kind `Decode`.
    pub fn decode(message: String) -> (e: Error)
        ensures
            e.kind == ErrorKind::Decode,
            e.message@ == message@,
    {
        Error::new(ErrorKind::Decode, message)
    }

    /// An error of kind `InvalidUrl`.
    pub fn invalid_url(message: String) -> (e: Error)
        ensures
            e.kind == ErrorKind::InvalidUrl,
            e.message@ == message@,
    {
        Error::new(ErrorKind::InvalidUrl, message)
    }

    /// An error of kind `InvalidHeader`.
    pub fn invalid_header(message: String) -> (e: Error)
        ensures
            e.kind == ErrorKind::InvalidHeader,
            e.message@ == message@,
    {
        Error::new(ErrorKind::InvalidHeader, message)
    }

    /// An error of kind `Stream`.
    pub fn stream(message: String) -> (e: Error)
        ensures
            e.kind == ErrorKind::Stream,
            e.message@ == message@,
    {
        Error::new(ErrorKind::Stream, message)
    }

    /// An error of kind `StreamConsumed`.
    pub fn stream_consumed(message: String) -> (e: Error)
        ensures
            e.kind == ErrorKind::StreamConsumed,
            e.message@ == message@,
    {
        Error::new(ErrorKind::StreamConsumed, message)
    }

    /// An error of kind `StreamClosed`.
    pub fn stream_closed(message: String) -> (e: Error)
        ensures
            e.kind == ErrorKind::StreamClosed,
            e.message@ == message@,
    {
        Error::new(ErrorKind::StreamClosed, message)
    }

    /// An error of kind `ResponseNotRead`.
    pub fn response_not_read(message: String) -> (e: Error)
        ensures
            e.kind == ErrorKind::ResponseNotRead,
            e.message@ == message@,
    {
        Error::new(ErrorKind::ResponseNotRead, message)
    }

    /// An error of kind `RequestNotRead`.
    pub fn request_not_read(message: String) -> (e: Error)
        ensures
            e.kind == ErrorKind::RequestNotRead,
            e.message@ == message@,
    {
        Error::new(ErrorKind::RequestNotRead, message)
    }

    /// An error of kind `CookieConflict`.
    pub fn cookie_conflict(message: String) -> (e: Error)
        ensures
            e.kind == ErrorKind::CookieConflict,
            e.message@ == message@,
    {
        Error::new(ErrorKind::CookieConflict, message)
    }
    /// An error for an HTTP status.
    pub fn status(code: u16, message: String) -> (e: Error)
        ensures
            e.kind == ErrorKind::Status(code),
            e.message@ == message@,
    {
        Error::new(ErrorKind::Status(code), message)
    }
}

/// What a transport error reports about itself: its text, its category
/// flags, the status it carries, and the scheme and text of its URL.
pub struct TransportFacts {
    pub text: String,
    pub is_builder: bool,
    pub is_timeout: bool,
    pub is_connect: bool,
    pub is_redirect: bool,
    pub is_decode: bool,
    pub is_request: bool,
    pub status: Option<u16>,
    pub url_scheme: Option<String>,
    pub url_text: Option<String>,
}

/// Whether the lowercased text holds `p`.
pub open spec fn mentions(text: Seq<char>, p: Seq<char>) -> bool {
    find_sub(str_lower(text), p) is Some
}

/// The kind of a transport error: timeouts by the phase their text names,
/// then connection, redirect, decoding and request errors (proxy and
/// protocol ones told by their text), then a status, else a request error.
pub open spec fn transport_kind(f: TransportFacts) -> ErrorKind {
    let t = f.text@;
    if f.is_timeout {
        if mentions(t, "connect"@) {
            ErrorKind::ConnectTimeout
        } else if mentions(t, "read"@) {
            ErrorKind::ReadTimeout
        } else if mentions(t, "write"@) {
            ErrorKind::WriteTimeout
        } else if mentions(t, "pool"@) {
            ErrorKind::PoolTimeout
        } else {
            ErrorKind::Timeout
        }
    } else if f.is_connect {
        ErrorKind::Connect
    } else if f.is_redirect {
        ErrorKind::Redirect
    } else if f.is_decode {
        ErrorKind::Decode
    } else if f.is_request {
        if mentions(t, "proxy"@) {
            ErrorKind::Proxy
        } else if mentions(t, "protocol"@) || mentions(t, "unsupported"@) {
            ErrorKind::UnsupportedProtocol
        } else {
            ErrorKind::Request
        }
    } else {
        match f.status {
            Some(s) => ErrorKind::Status(s),
            None => ErrorKind::Request,
        }
    }
}

/// The error for a transport failure; the message is the error's text.
pub fn from_transport(f: &TransportFacts) -> (e: Error)
    ensures
        e.kind == transport_kind(*f),
        e.message@ == f.text@,
{
    let lower = to_lower(f.text.as_str());
    let l = lower.as_str();
    let kind = if f.is_timeout {
        if str_contains(l, "connect") {
            ErrorKind::ConnectTimeout
        } else if str_contains(l, "read") {
            ErrorKind::ReadTimeout
        } else if str_contains(l, "write") {
            ErrorKind::WriteTimeout
        } else if str_contains(l, "pool") {
            ErrorKind::PoolTimeout
        } else {
            ErrorKind::Timeout
        }
    } else if f.is_connect {
        ErrorKind::Connect
    } else if f.is_redirect {
        ErrorKind::Redirect
    } else if f.is_decode {
        ErrorKind::Decode
    } else if f.is_request {
        if str_contains(l, "proxy") {
            ErrorKind::Proxy
        } else if str_contains(l, "protocol") || str_contains(l, "unsupported") {
            ErrorKind::UnsupportedProtocol
        } else {
            ErrorKind::Request
        }
    } else {
        match f.status {
            Some(s) => ErrorKind::Status(s),
            None => ErrorKind::Request,
        }
    };
    Error::new(kind, f.text.clone())
}

/// The kinds of I/O failure that are told apart.
#[derive(Debug, Clone, Copy, PartialEq, Eq)]
pub enum IoFailure {
    TimedOut,
    ConnectionRefused,
    ConnectionReset,
    ConnectionAborted,
    NotConnected,
    BrokenPipe,
    WriteZero,
    UnexpectedEof,
    Other,
}

/// The kind of an I/O failure.
pub open spec fn io_kind(k: IoFailure) -> ErrorKind {
    match k {
        IoFailure::TimedOut => ErrorKind::Timeout,
        IoFailure::ConnectionRefused | IoFailure::ConnectionReset | IoFailure::ConnectionAborted
        | IoFailure::NotConnected => ErrorKind::Connect,
        IoFailure::BrokenPipe | IoFailure::WriteZero => ErrorKind::Write,
        IoFailure::UnexpectedEof => ErrorKind::Read,
        IoFailure::Other => ErrorKind::Transport,
    }
}

/// The error for an I/O failure.
pub fn from_io(kind: IoFailure, text: String) -> (e: Error)
    ensures
        e.kind == io_kind(kind),
        e.message@ == text@,
{
    let k = match kind {
        IoFailure::TimedOut => ErrorKind::Timeout,
        IoFailure::ConnectionRefused | IoFailure::ConnectionReset | IoFailure::ConnectionAborted
        | IoFailure::NotConnected => ErrorKind::Connect,
        IoFailure::BrokenPipe | IoFailure::WriteZero => ErrorKind::Write,
        IoFailure::UnexpectedEof => ErrorKind::Read,
        IoFailure::Other => ErrorKind::Transport,
    };
    Error::new(k, text)
}

/// The error for a URL that does not parse.
pub fn from_url_parse(text: String) -> (e: Error)
    ensures
        e.kind == ErrorKind::InvalidUrl,
        e.message@ == text@,
{
    Error::invalid_url(text)
}

/// The error for JSON that does not parse.
pub fn from_json(text: String) -> (e: Error)
    ensures
        e.kind == ErrorKind::Decode,
        e.message@ == text@,
{
    Error::decode(text)
}

/// The exception classes errors are raised as.
#[derive(Debug, Clone, Copy, PartialEq, Eq)]
pub enum Exception {
    TransportError,
    ConnectError,
    ReadError,
    WriteError,
    CloseError,
    ProxyError,
    UnsupportedProtocol,
    ProtocolError,
    LocalProtocolError,
    RemoteProtocolError,
    TimeoutException,
    ConnectTimeout,
    ReadTimeout,
    WriteTimeout,
    PoolTimeout,
    HTTPStatusError,
    TooManyRedirects,
    DecodingError,
    InvalidURL,
    RequestError,
    StreamError,
    StreamConsumed,
    StreamClosed,
    ResponseNotRead,
    RequestNotRead,
    CookieConflict,
}

/// The exception an error kind is raised as.
pub open spec fn exception_of(k: ErrorKind) -> Exception {
    match k {
        ErrorKind::Transport => Exception::TransportError,
        ErrorKind::Connect => Exception::ConnectError,
        ErrorKind::Read => Exception::ReadError,
        ErrorKind::Write => Exception::WriteError,
        ErrorKind::Close => Exception::CloseError,
        ErrorKind::Proxy => Exception::ProxyError,
        ErrorKind::UnsupportedProtocol => Exception::UnsupportedProtocol,
        ErrorKind::Protocol => Exception::ProtocolError,
        ErrorKind::LocalProtocol => Exception::LocalProtocolError,
        ErrorKind::RemoteProtocol => Exception::RemoteProtocolError,
        ErrorKind::Timeout => Exception::TimeoutException,
        ErrorKind::ConnectTimeout => Exception::ConnectTimeout,
        ErrorKind::ReadTimeout => Exception::ReadTimeout,
        ErrorKind::WriteTimeout => Exception::WriteTimeout,
        ErrorKind::PoolTimeout => Exception::PoolTimeout,
        ErrorKind::Status(_) => Exception::HTTPStatusError,
        ErrorKind::Redirect => Exception::TooManyRedirects,
        ErrorKind::Decode => Exception::DecodingError,
        ErrorKind::InvalidUrl => Exception::InvalidURL,
        ErrorKind::InvalidHeader => Exception::RequestError,
        ErrorKind::Stream => Exception::StreamError,
        ErrorKind::StreamConsumed => Exception::StreamConsumed,
        ErrorKind::StreamClosed => Exception::StreamClosed,
        ErrorKind::ResponseNotRead => Exception::ResponseNotRead,
        ErrorKind::RequestNotRead => Exception::RequestNotRead,
        ErrorKind::CookieConflict => Exception::CookieConflict,
        ErrorKind::Request | ErrorKind::Other(_) => Exception::RequestError,
    }
}

/// The message an error is raised with: a status error adds its code.
pub open spec fn exception_message(e: Error) -> Seq<char> {
    match e.kind {
        ErrorKind::Status(code) => e.message@ + " (status code: "@ + decimal(code as nat) + ")"@,
        _ => e.message@,
    }
}

/// The exception class and message an error is raised as.
pub fn to_exception(e: &Error) -> (r: (Exception, String))
    ensures
        r.0 == exception_of(e.kind),
        r.1@ == exception_message(*e),
{
    let class = match &e.kind {
        ErrorKind::Transport => Exception::TransportError,
        ErrorKind::Connect => Exception::ConnectError,
        ErrorKind::Read => Exception::ReadError,
        ErrorKind::Write => Exception::WriteError,
        ErrorKind::Close => Exception::CloseError,
        ErrorKind::Proxy => Exception::ProxyError,
        ErrorKind::UnsupportedProtocol => Exception::UnsupportedProtocol,
        ErrorKind::Protocol => Exception::ProtocolError,
        ErrorKind::LocalProtocol => Exception::LocalProtocolError,
        ErrorKind::RemoteProtocol => Exception::RemoteProtocolError,
        ErrorKind::Timeout => Exception::TimeoutException,
        ErrorKind::ConnectTimeout => Exception::ConnectTimeout,
        ErrorKind::ReadTimeout => Exception::ReadTimeout,
        ErrorKind::WriteTimeout => Exception::WriteTimeout,
        ErrorKind::PoolTimeout => Exception::PoolTimeout,
        ErrorKind::Status(_) => Exception::HTTPStatusError,
        ErrorKind::Redirect => Exception::TooManyRedirects,
        ErrorKind::Decode => Exception::DecodingError,
        ErrorKind::InvalidUrl => Exception::InvalidURL,
        ErrorKind::InvalidHeader => Exception::RequestError,
        ErrorKind::Stream => Exception::StreamError,
        ErrorKind::StreamConsumed => Exception::StreamConsumed,
        ErrorKind::StreamClosed => Exception::StreamClosed,
        ErrorKind::ResponseNotRead => Exception::ResponseNotRead,
        ErrorKind::RequestNotRead => Exception::RequestNotRead,
        ErrorKind::CookieConflict => Exception::CookieConflict,
        ErrorKind::Request | ErrorKind::Other(_) => Exception::RequestError,
    };
    let message = match &e.kind {
        ErrorKind::Status(code) => {
            let digits = crate::text::decimal_string(*code as u64);
            let a = crate::text::concat3(e.message.as_str(), " (status code: ", digits.as_str());
            concat2(a.as_str(), ")")
        },
        _ => e.message.clone(),
    };
    (class, message)
}

/// The exception for a transport failure as raised by the client, given
/// which single timeout was configured ("connect", "write", "read" or
/// "pool"), if any.
pub open spec fn spec_transport_exception(f: TransportFacts, timeout_context: Option<Seq<char>>) -> Exception {
    let t = f.text@;
    if f.is_builder && (mentions(t, "url"@) || mentions(t, "scheme"@) || mentions(t, "builder error"@)) {
        Exception::UnsupportedProtocol
    } else if f.is_timeout {
        match timeout_context {
            Some(ctx) => if ctx == "connect"@ {
                Exception::ConnectTimeout
            } else if ctx == "write"@ {
                Exception::WriteTimeout
            } else if ctx == "read"@ {
                Exception::ReadTimeout
            } else if ctx == "pool"@ {
                Exception::PoolTimeout
            } else {
                Exception::TimeoutException
            },
            None => if f.is_connect {
                Exception::ConnectTimeout
            } else if mentions(t, "connect"@) || mentions(t, "dns"@) || mentions(t, "resolve"@)
                || mentions(t, "10.255.255"@) || mentions(t, "connection refused"@) {
                Exception::ConnectTimeout
            } else if mentions(t, "pool"@) || mentions(t, "acquire connection"@) {
                Exception::PoolTimeout
            } else if (mentions(t, "sending request"@) || mentions(t, "request body"@) || mentions(
                t,
                "send body"@,
            )) && !mentions(t, "response"@) && !mentions(t, "decoding"@) {
                Exception::WriteTimeout
            } else {
                Exception::ReadTimeout
            },
        }
    } else if f.is_connect {
        Exception::ConnectError
    } else if f.is_request {
        Exception::RequestError
    } else if f.is_redirect {
        Exception::TooManyRedirects
    } else {
        Exception::TransportError
    }
}

/// The message for a transport failure: a builder error whose URL has a
/// scheme other than http and https names that scheme and URL; otherwise
/// the error's text.
pub open spec fn spec_transport_message(f: TransportFacts) -> Seq<char> {
    let t = f.text@;
    if f.is_builder && (mentions(t, "url"@) || mentions(t, "scheme"@) || mentions(t, "builder error"@)) {
        match (f.url_scheme, f.url_text) {
            (Some(s), Some(u)) => if s@ != "http"@ && s@ != "https"@ {
                "Request URL has unsupported protocol '"@ + s@ + "://': "@ + u@
            } else {
                t
            },
            _ => t,
        }
    } else {
        t
    }
}

/// Classifies a transport failure into the exception raised for it.
pub fn convert_reqwest_error_with_context(f: &TransportFacts, timeout_context: Option<&str>) -> (r: (
    Exception,
    String,
))
    ensures
        r.0 == spec_transport_exception(*f, crate::prepare::opt_str(timeout_context)),
        r.1@ == spec_transport_message(*f),
{
    let lower = to_lower(f.text.as_str());
    let l = lower.as_str();
    if f.is_builder && (str_contains(l, "url") || str_contains(l, "scheme") || str_contains(l, "builder error")) {
        match (&f.url_scheme, &f.url_text) {
            (Some(s), Some(u)) => {
                if !str_eq(s.as_str(), "http") && !str_eq(s.as_str(), "https") {
                    let a = crate::text::concat3("Request URL has unsupported protocol '", s.as_str(), "://': ");
                    return (Exception::UnsupportedProtocol, concat2(a.as_str(), u.as_str()));
                }
            },
            _ => {},
        }
        return (Exception::UnsupportedProtocol, f.text.clone());
    }
    let class = if f.is_timeout {
        match timeout_context {
            Some(ctx) => if str_eq(ctx, "connect") {
                Exception::ConnectTimeout
            } else if str_eq(ctx, "write") {
                Exception::WriteTimeout
            } else if str_eq(ctx, "read") {
                Exception::ReadTimeout
            } else if str_eq(ctx, "pool") {
                Exception::PoolTimeout
            } else {
                Exception::TimeoutException
            },
            None => if f.is_connect {
                Exception::ConnectTimeout
            } else if str_contains(l, "connect") || str_contains(l, "dns") || str_contains(l, "resolve")
                || str_contains(l, "10.255.255") || str_contains(l, "connection refused") {
                Exception::ConnectTimeout
            } else if str_contains(l, "pool") || str_contains(l, "acquire connection") {
                Exception::PoolTimeout
            } else if (str_contains(l, "sending request") || str_contains(l, "request body")
                || str_contains(l, "send body")) && !str_contains(l, "response") && !str_contains(
                l,
                "decoding",
            ) {
                Exception::WriteTimeout
            } else {
                Exception::ReadTimeout
            },
        }
    } else if f.is_connect {
        Exception::ConnectError
    } else if f.is_request {
        Exception::RequestError
    } else if f.is_redirect {
        Exception::TooManyRedirects
    } else {
        Exception::TransportError
    };
    (class, f.text.clone())
}

} // verus!
