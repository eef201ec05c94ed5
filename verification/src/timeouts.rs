//! The decisions behind timeout and proxy settings: which form a `Timeout`
//! is given in, which single timeout is configured, and what a proxy URL
//! becomes.  The timeout values themselves are seconds as floating point and
//! stay with the caller.
use crate::text::{owned, push_str, str_eq};
use crate::url_build::{built, spec_new_impl};
use crate::url_model::{or_empty, port_suffix, spec_to_string, URLView, URL};
use crate::url_parts::{url_host, url_password, url_path, url_port, url_scheme, url_username};
use vstd::prelude::*;

verus! {

// ----- timeouts --------------------------------------------------------------

/// The name of the one timeout that is set, when exactly one of connect,
/// write, read and pool is.
pub open spec fn spec_timeout_context(connect: bool, write: bool, read: bool, pool: bool) -> Option<Seq<char>> {
    let count = (if connect { 1int } else { 0int }) + (if write { 1int } else { 0int }) + (if read {
        1int
    } else {
        0int
    }) + (if pool { 1int } else { 0int });
    if count != 1 {
        None
    } else if connect {
        Some("connect"@)
    } else if write {
        Some("write"@)
    } else if read {
        Some("read"@)
    } else {
        Some("pool"@)
    }
}

/// Which single timeout is set (given which of connect, write, read and
/// pool are), naming the kind of timeout an error came from.
pub fn timeout_context(connect: bool, write: bool, read: bool, pool: bool) -> (r: Option<&'static str>)
    ensures
        match spec_timeout_context(connect, write, read, pool) {
            Some(n) => r matches Some(x) && x@ == n,
            None => r is None,
        },
{
    let count: u8 = (if connect { 1u8 } else { 0u8 }) + (if write { 1u8 } else { 0u8 }) + (if read {
        1u8
    } else {
        0u8
    }) + (if pool { 1u8 } else { 0u8 });
    if count != 1 {
        None
    } else if connect {
        Some("connect")
    } else if write {
        Some("write")
    } else if read {
        Some("read")
    } else {
        Some("pool")
    }
}

/// The form of the timeout argument given to `Timeout(..)`.
pub enum TimeoutArg {
    /// No timeout argument at all.
    Absent,
    /// `None`.
    NoneValue,
    /// A tuple of the given length.
    Tuple(usize),
    /// Another `Timeout`.
    Instance,
    /// A number of seconds.
    Number,
    /// Anything else.
    Other,
}

/// How the four timeouts of a `Timeout` are filled.
#[derive(PartialEq, Eq, Structural)]
pub enum TimeoutPlan {
    /// Each given value, else the default of five seconds.
    GivenOrDefault,
    /// Each given value, else none.
    GivenOrNone,
    /// The tuple's four values.
    FromTuple,
    /// The other `Timeout`'s values.
    FromInstance,
    /// Each given value, else the number.
    GivenOrNumber,
}

/// Why a `Timeout` cannot be built.
#[derive(PartialEq, Eq, Structural)]
pub enum TimeoutError {
    /// Some but not all of the four timeouts given, without a default.
    MissingDefault,
    /// A tuple whose length is not four.
    TupleLength,
    /// A timeout argument of another type.
    BadType,
}

impl TimeoutError {
    /// The message (a `ValueError` for the first two, a `TypeError` for the
    /// last).
    pub fn message(&self) -> (r: &'static str)
        ensures
            r@ == match self {
                TimeoutError::MissingDefault => "httpx.Timeout must either include a default, or set all four parameters explicitly."@,
                TimeoutError::TupleLength => "timeout tuple must have 4 elements (connect, read, write, pool)"@,
                TimeoutError::BadType => "timeout must be a float, tuple, Timeout instance, or None"@,
            },
    {
        match self {
            TimeoutError::MissingDefault => "httpx.Timeout must either include a default, or set all four parameters explicitly.",
            TimeoutError::TupleLength => "timeout tuple must have 4 elements (connect, read, write, pool)",
            TimeoutError::BadType => "timeout must be a float, tuple, Timeout instance, or None",
        }
    }
}

/// How a `Timeout` is built from its argument and from which of connect,
/// read, write and pool are given.
pub open spec fn spec_timeout_plan(arg: TimeoutArg, connect: bool, read: bool, write: bool, pool: bool) -> Result<TimeoutPlan, TimeoutError> {
    match arg {
        TimeoutArg::Absent => {
            let any = connect || read || write || pool;
            let all = connect && read && write && pool;
            if any && !all {
                Err(TimeoutError::MissingDefault)
            } else {
                Ok(TimeoutPlan::GivenOrDefault)
            }
        },
        TimeoutArg::NoneValue => Ok(TimeoutPlan::GivenOrNone),
        TimeoutArg::Tuple(n) => if n != 4 {
            Err(TimeoutError::TupleLength)
        } else {
            Ok(TimeoutPlan::FromTuple)
        },
        TimeoutArg::Instance => Ok(TimeoutPlan::FromInstance),
        TimeoutArg::Number => Ok(TimeoutPlan::GivenOrNumber),
        TimeoutArg::Other => Err(TimeoutError::BadType),
    }
}

/// Decides how a `Timeout` is built.
pub fn timeout_plan(arg: TimeoutArg, connect: bool, read: bool, write: bool, pool: bool) -> (r: Result<TimeoutPlan, TimeoutError>)
    ensures
        r == spec_timeout_plan(arg, connect, read, write, pool),
{
    match arg {
        TimeoutArg::Absent => {
            let any = connect || read || write || pool;
            let all = connect && read && write && pool;
            if any && !all {
                Err(TimeoutError::MissingDefault)
            } else {
                Ok(TimeoutPlan::GivenOrDefault)
            }
        },
        TimeoutArg::NoneValue => Ok(TimeoutPlan::GivenOrNone),
        TimeoutArg::Tuple(n) => if n != 4 {
            Err(TimeoutError::TupleLength)
        } else {
            Ok(TimeoutPlan::FromTuple)
        },
        TimeoutArg::Instance => Ok(TimeoutPlan::FromInstance),
        TimeoutArg::Number => Ok(TimeoutPlan::GivenOrNumber),
        TimeoutArg::Other => Err(TimeoutError::BadType),
    }
}

// ----- proxies -------------------------------------------------------------------

/// A proxy's URL (without credentials, the root path dropped) and its
/// credentials.
pub struct ProxySettings {
    pub url: URL,
    pub auth: Option<(String, String)>,
}

/// Why a proxy cannot be configured.
pub enum ProxyError {
    /// The URL is invalid (an `InvalidURL` with this message).
    InvalidUrl(String),
    /// The scheme is not a proxy scheme (a `ValueError` with this message).
    InvalidScheme(String),
}

/// The view of a pair of strings.
pub open spec fn pair_view(p: (String, String)) -> (Seq<char>, Seq<char>) {
    (p.0@, p.1@)
}

/// A scheme a proxy may use.
pub open spec fn proxy_scheme(s: Seq<char>) -> bool {
    s == "http"@ || s == "https"@ || s == "socks4"@ || s == "socks5"@
}

/// The proxy URL without credentials: scheme, host, port, and the path
/// unless it is the root.
pub open spec fn clean_proxy_url(t: Seq<char>) -> Seq<char> {
    let path = url_path(t);
    url_scheme(t) + "://"@ + url_host(t) + port_suffix(url_port(t)) + if path == "/"@ {
        Seq::empty()
    } else {
        path
    }
}

/// The credentials given, else those in the URL (when it has a user name).
pub open spec fn proxy_auth(t: Seq<char>, auth: Option<(Seq<char>, Seq<char>)>) -> Option<(Seq<char>, Seq<char>)> {
    match auth {
        Some(a) => Some(a),
        None => if url_username(t).len() > 0 {
            Some((url_username(t), or_empty(url_password(t))))
        } else {
            None
        },
    }
}

/// A URL parsed from its text.
pub open spec fn parse_text(s: Seq<char>) -> Result<URLView, Seq<char>> {
    spec_new_impl(Some(s), None, None, None, None, None, None, None)
}

/// The settings for a proxy URL: refused when the URL does not parse or its
/// scheme is not http, https, socks4 or socks5.
pub open spec fn spec_proxy(url: Seq<char>, auth: Option<(Seq<char>, Seq<char>)>) -> Result<(URLView, Option<(Seq<char>, Seq<char>)>), (bool, Seq<char>)> {
    match parse_text(url) {
        Err(m) => Err((true, m)),
        Ok(v) => {
            let sc = url_scheme(v.text);
            if !proxy_scheme(sc) {
                Err(
                    (
                        false,
                        "Invalid proxy scheme '"@ + sc + "'. Must be http, https, socks4, or socks5."@,
                    ),
                )
            } else {
                match parse_text(clean_proxy_url(v.text)) {
                    Err(m) => Err((true, m)),
                    Ok(c) => Ok((c, proxy_auth(v.text, auth))),
                }
            }
        },
    }
}

/// The view of optional credentials.
pub open spec fn opt_pair(a: Option<(String, String)>) -> Option<(Seq<char>, Seq<char>)> {
    match a {
        Some(p) => Some(pair_view(p)),
        None => None,
    }
}

/// The proxy settings for a URL and optional credentials.
pub fn proxy_settings(url: &str, auth: Option<(String, String)>) -> (r: Result<ProxySettings, ProxyError>)
    ensures
        match spec_proxy(url@, opt_pair(auth)) {
            Ok((v, a)) => r matches Ok(p) && p.url@ == v && opt_pair(p.auth) == a,
            Err((true, m)) => r matches Err(ProxyError::InvalidUrl(e)) && e@ == m,
            Err((false, m)) => r matches Err(ProxyError::InvalidScheme(e)) && e@ == m,
        },
{
    let parsed = match URL::parse(url) {
        Ok(u) => u,
        Err(m) => {
            return Err(ProxyError::InvalidUrl(m));
        },
    };
    let inner = parsed.inner();
    let scheme = inner.scheme();
    if !(str_eq(scheme, "http") || str_eq(scheme, "https") || str_eq(scheme, "socks4") || str_eq(
        scheme,
        "socks5",
    )) {
        let mut m = owned("Invalid proxy scheme '");
        push_str(&mut m, scheme);
        push_str(&mut m, "'. Must be http, https, socks4, or socks5.");
        return Err(ProxyError::InvalidScheme(m));
    }
    let final_auth = match auth {
        Some(a) => Some(a),
        None => {
            let username = inner.username();
            if !username.is_empty() {
                let password = match inner.password() {
                    Some(p) => owned(p),
                    None => String::new(),
                };
                Some((owned(username), password))
            } else {
                None
            }
        },
    };
    let mut clean = owned(scheme);
    push_str(&mut clean, "://");
    match inner.host_str() {
        Some(h) => push_str(&mut clean, h),
        None => {},
    }
    match inner.port() {
        Some(p) => {
            push_str(&mut clean, ":");
            crate::text::push_decimal(&mut clean, p as u64);
        },
        None => {},
    }
    let path = inner.path();
    if !str_eq(path, "/") {
        push_str(&mut clean, path);
    }
    proof {
        reveal_strlit("");
    }
    assert(clean@ =~= clean_proxy_url(parsed@.text));
    match URL::parse(clean.as_str()) {
        Ok(c) => Ok(ProxySettings { url: c, auth: final_auth }),
        Err(m) => Err(ProxyError::InvalidUrl(m)),
    }
}

/// A proxy's representation, with any password hidden.
pub open spec fn spec_proxy_repr(v: URLView, auth: Option<(Seq<char>, Seq<char>)>) -> Seq<char> {
    match auth {
        Some((user, _)) => "Proxy('"@ + spec_to_string(v) + "', auth=('"@ + user + "', '********'))"@,
        None => "Proxy('"@ + spec_to_string(v) + "')"@,
    }
}

/// The representation of proxy settings.
pub fn proxy_repr(p: &ProxySettings) -> (r: String)
    ensures
        r@ == spec_proxy_repr(p.url@, opt_pair(p.auth)),
{
    let mut r = owned("Proxy('");
    let shown = p.url.to_string();
    push_str(&mut r, shown.as_str());
    match &p.auth {
        Some(a) => {
            push_str(&mut r, "', auth=('");
            push_str(&mut r, a.0.as_str());
            push_str(&mut r, "', '********'))");
        },
        None => {
            push_str(&mut r, "')");
        },
    }
    r
}

} // verus!
