//! Redirect handling: which statuses redirect, which method the follow-up
//! request uses (RFC 7231), where it goes, and when to stop following.
use crate::text::{
    chars_of, decimal, first_piece, first_piece_bounds, owned, push_decimal, push_str, starts_with,
    str_eq, str_starts_with, str_upper, string_of, to_upper,
};
use crate::url_parts::opt_view;
use vstd::prelude::*;

verus! {

/// Maximum number of redirects followed before giving up.
pub const MAX_REDIRECTS: u8 = 30;

/// An HTTP request method.
#[allow(non_camel_case_types)]
#[derive(Debug, PartialEq, Eq)]
pub enum Method {
    OPTIONS,
    GET,
    POST,
    PUT,
    DELETE,
    HEAD,
    TRACE,
    CONNECT,
    PATCH,
    /// Any other method token.
    Extension(String),
}

/// The name of a method.
pub open spec fn method_text(m: Method) -> Seq<char> {
    match m {
        Method::OPTIONS => "OPTIONS"@,
        Method::GET => "GET"@,
        Method::POST => "POST"@,
        Method::PUT => "PUT"@,
        Method::DELETE => "DELETE"@,
        Method::HEAD => "HEAD"@,
        Method::TRACE => "TRACE"@,
        Method::CONNECT => "CONNECT"@,
        Method::PATCH => "PATCH"@,
        Method::Extension(s) => s@,
    }
}

/// Whether a name is one of the standard methods.
pub open spec fn standard_method(n: Seq<char>) -> bool {
    n == "OPTIONS"@ || n == "GET"@ || n == "POST"@ || n == "PUT"@ || n == "DELETE"@ || n == "HEAD"@
        || n == "TRACE"@ || n == "CONNECT"@ || n == "PATCH"@
}

/// The method a request names, compared uppercased: a standard method, or
/// an extension method holding the uppercased name.
pub fn method_from_name(name: &str) -> (m: Method)
    ensures
        method_text(m) == str_upper(name@),
        m is Extension <==> !standard_method(str_upper(name@)),
{
    let u = to_upper(name);
    let t = u.as_str();
    if str_eq(t, "OPTIONS") {
        Method::OPTIONS
    } else if str_eq(t, "GET") {
        Method::GET
    } else if str_eq(t, "POST") {
        Method::POST
    } else if str_eq(t, "PUT") {
        Method::PUT
    } else if str_eq(t, "DELETE") {
        Method::DELETE
    } else if str_eq(t, "HEAD") {
        Method::HEAD
    } else if str_eq(t, "TRACE") {
        Method::TRACE
    } else if str_eq(t, "CONNECT") {
        Method::CONNECT
    } else if str_eq(t, "PATCH") {
        Method::PATCH
    } else {
        Method::Extension(u)
    }
}

/// Whether `m` is HEAD.
pub open spec fn is_head(m: Method) -> bool {
    m is HEAD
}

/// Whether `m` is POST.
pub open spec fn is_post(m: Method) -> bool {
    m is POST
}

/// Whether two methods are the same method.
pub open spec fn same_method(a: Method, b: Method) -> bool {
    match (a, b) {
        (Method::Extension(x), Method::Extension(y)) => x@ == y@,
        (Method::Extension(_), _) => false,
        (_, Method::Extension(_)) => false,
        _ => a == b,
    }
}

/// Whether two methods are the same method.
pub fn method_eq(a: &Method, b: &Method) -> (r: bool)
    ensures
        r == same_method(*a, *b),
{
    match (a, b) {
        (Method::Extension(x), Method::Extension(y)) => str_eq(x.as_str(), y.as_str()),
        (Method::Extension(_), _) => false,
        (_, Method::Extension(_)) => false,
        (Method::OPTIONS, Method::OPTIONS) => true,
        (Method::GET, Method::GET) => true,
        (Method::POST, Method::POST) => true,
        (Method::PUT, Method::PUT) => true,
        (Method::DELETE, Method::DELETE) => true,
        (Method::HEAD, Method::HEAD) => true,
        (Method::TRACE, Method::TRACE) => true,
        (Method::CONNECT, Method::CONNECT) => true,
        (Method::PATCH, Method::PATCH) => true,
        _ => false,
    }
}

/// A copy of the method.
pub fn copy_method(m: &Method) -> (r: Method)
    ensures
        same_method(r, *m),
{
    match m {
        Method::OPTIONS => Method::OPTIONS,
        Method::GET => Method::GET,
        Method::POST => Method::POST,
        Method::PUT => Method::PUT,
        Method::DELETE => Method::DELETE,
        Method::HEAD => Method::HEAD,
        Method::TRACE => Method::TRACE,
        Method::CONNECT => Method::CONNECT,
        Method::PATCH => Method::PATCH,
        Method::Extension(s) => Method::Extension(s.clone()),
    }
}

/// The method of the request that follows a redirect with `status_code`:
/// 303 turns everything but HEAD into GET, 301 and 302 turn POST into GET,
/// and otherwise the method is kept.
pub open spec fn redirect_method(original: Method, status_code: u16) -> Option<Method> {
    if status_code == 307 || status_code == 308 {
        None
    } else if status_code == 303 && !is_head(original) {
        Some(Method::GET)
    } else if (status_code == 301 || status_code == 302) && is_post(original) {
        Some(Method::GET)
    } else {
        None
    }
}

/// Determines the redirect method per RFC 7231.
pub fn get_redirect_method(original_method: &Method, status_code: u16) -> (r: Method)
    ensures
        match redirect_method(*original_method, status_code) {
            Some(m) => r == m,
            None => same_method(r, *original_method),
        },
{
    if status_code == 307 || status_code == 308 {
        copy_method(original_method)
    } else if status_code == 303 && !matches!(original_method, Method::HEAD) {
        Method::GET
    } else if (status_code == 301 || status_code == 302) && matches!(original_method, Method::POST) {
        Method::GET
    } else {
        copy_method(original_method)
    }
}

/// The statuses that redirect.
pub open spec fn spec_is_redirect(status_code: u16) -> bool {
    status_code == 301 || status_code == 302 || status_code == 303 || status_code == 307
        || status_code == 308
}

/// Checks whether a status code is a redirect.
pub fn is_redirect(status_code: u16) -> (r: bool)
    ensures
        r == spec_is_redirect(status_code),
{
    status_code == 301 || status_code == 302 || status_code == 303 || status_code == 307
        || status_code == 308
}

/// The directory of a request path: the path up to and including its last
/// "/" ("/" when it holds none).
pub open spec fn path_dir(path: Seq<char>) -> Seq<char>
    decreases path.len(),
{
    if path.len() == 0 {
        "/"@
    } else if path.last() == '/' {
        path
    } else {
        path_dir(path.drop_last())
    }
}

/// The number of characters before the first "/" (all of them when there is
/// none).
pub open spec fn run_len(s: Seq<char>) -> nat
    decreases s.len(),
{
    if s.len() == 0 || s[0] == '/' {
        0
    } else {
        1 + run_len(s.drop_first())
    }
}

/// A run before the first "/" is no longer than the text.
pub proof fn lemma_run_len(s: Seq<char>)
    ensures
        run_len(s) <= s.len(),
    decreases s.len(),
{
    if s.len() > 0 && s[0] != '/' {
        lemma_run_len(s.drop_first());
    }
}

/// The length of the first path segment of `input`, with its leading "/" if
/// it has one.
pub open spec fn seg_end(input: Seq<char>) -> nat {
    if input.len() > 0 && input[0] == '/' {
        1 + run_len(input.skip(1))
    } else {
        run_len(input)
    }
}

/// The output buffer without its last segment: everything before its last
/// "/" (nothing when it has none).
pub open spec fn drop_segment(out: Seq<char>) -> Seq<char>
    decreases out.len(),
{
    if out.len() == 0 {
        out
    } else if out.last() == '/' {
        out.drop_last()
    } else {
        drop_segment(out.drop_last())
    }
}

/// RFC 3986's `remove_dot_segments` (section 5.2.4), as a loop over the
/// input buffer with `out` the output buffer so far: "../" and "./" leading
/// the input are dropped; "/./" and a final "/." become "/"; "/../" and a
/// final "/.." become "/" and remove the last output segment; a lone "." or
/// ".." ends the input; otherwise the first segment moves to the output.
pub open spec fn remove_dots(input: Seq<char>, out: Seq<char>) -> Seq<char>
    decreases input.len(),
{
    let n = input.len();
    if n == 0 {
        out
    } else if n >= 3 && input[0] == '.' && input[1] == '.' && input[2] == '/' {
        remove_dots(input.skip(3), out)
    } else if n >= 2 && input[0] == '.' && input[1] == '/' {
        remove_dots(input.skip(2), out)
    } else if n >= 3 && input[0] == '/' && input[1] == '.' && input[2] == '/' {
        remove_dots(input.skip(2), out)
    } else if n == 2 && input[0] == '/' && input[1] == '.' {
        out.push('/')
    } else if n >= 4 && input[0] == '/' && input[1] == '.' && input[2] == '.' && input[3] == '/' {
        remove_dots(input.skip(3), drop_segment(out))
    } else if n == 3 && input[0] == '/' && input[1] == '.' && input[2] == '.' {
        drop_segment(out).push('/')
    } else if (n == 1 && input[0] == '.') || (n == 2 && input[0] == '.' && input[1] == '.') {
        out
    } else {
        proof {
            lemma_run_len(input);
            lemma_run_len(input.skip(1));
        }
        let e = seg_end(input) as int;
        if 0 < e <= n {
            remove_dots(input.skip(e), out + input.take(e))
        } else {
            out
        }
    }
}

/// The length of the path part of a reference: the characters before the
/// first "?" or "#".
pub open spec fn path_part_len(s: Seq<char>) -> nat
    decreases s.len(),
{
    if s.len() == 0 || s[0] == '?' || s[0] == '#' {
        0
    } else {
        1 + path_part_len(s.drop_first())
    }
}

/// The reference with dot segments removed from its path part.
pub open spec fn without_dots(reference: Seq<char>) -> Seq<char> {
    let k = path_part_len(reference) as int;
    remove_dots(reference.take(k), Seq::empty()) + reference.skip(k)
}

fn drop_last_segment(out: &mut Vec<char>)
    ensures
        final(out)@ == drop_segment(old(out)@),
{
    while out.len() > 0
        invariant
            drop_segment(old(out)@) == drop_segment(out@),
        decreases out.len(),
    {
        let ghost cur = out@;
        let c = out.pop().unwrap();
        assert(out@ =~= cur.drop_last());
        if c == '/' {
            return;
        }
    }
}

fn remove_dot_segments(path: &[char], end: usize) -> (r: Vec<char>)
    requires
        end <= path@.len(),
    ensures
        r@ == remove_dots(path@.take(end as int), Seq::empty()),
{
    let ghost pv = path@.take(end as int);
    let n = end;
    let mut out: Vec<char> = Vec::new();
    let mut i: usize = 0;
    assert(pv.skip(0) =~= pv);
    while i < n
        invariant
            i <= n,
            n == pv.len(),
            pv == path@.take(end as int),
            end <= path@.len(),
            remove_dots(pv, Seq::empty()) == remove_dots(pv.skip(i as int), out@),
        decreases n - i,
    {
        let m = n - i;
        let ghost inp = pv.skip(i as int);
        assert(inp.len() == m);
        if m >= 3 && path[i] == '.' && path[i + 1] == '.' && path[i + 2] == '/' {
            assert(inp.skip(3) =~= pv.skip(i + 3));
            i = i + 3;
        } else if m >= 2 && path[i] == '.' && path[i + 1] == '/' {
            assert(inp.skip(2) =~= pv.skip(i + 2));
            i = i + 2;
        } else if m >= 3 && path[i] == '/' && path[i + 1] == '.' && path[i + 2] == '/' {
            assert(inp.skip(2) =~= pv.skip(i + 2));
            i = i + 2;
        } else if m == 2 && path[i] == '/' && path[i + 1] == '.' {
            out.push('/');
            return out;
        } else if m >= 4 && path[i] == '/' && path[i + 1] == '.' && path[i + 2] == '.' && path[i + 3]
            == '/' {
            assert(inp.skip(3) =~= pv.skip(i + 3));
            drop_last_segment(&mut out);
            i = i + 3;
        } else if m == 3 && path[i] == '/' && path[i + 1] == '.' && path[i + 2] == '.' {
            drop_last_segment(&mut out);
            out.push('/');
            return out;
        } else if (m == 1 && path[i] == '.') || (m == 2 && path[i] == '.' && path[i + 1] == '.') {
            return out;
        } else {
            let start: usize = if path[i] == '/' {
                i + 1
            } else {
                i
            };
            let mut k: usize = start;
            assert(pv.skip(start as int) =~= if path[i as int] == '/' {
                inp.skip(1)
            } else {
                inp
            });
            while k < n && path[k] != '/'
                invariant
                    start <= k <= n,
                    n == pv.len(),
            pv == path@.take(end as int),
            end <= path@.len(),
                    run_len(pv.skip(start as int)) == (k - start) + run_len(pv.skip(k as int)),
                decreases n - k,
            {
                assert(pv.skip(k as int).drop_first() =~= pv.skip(k + 1));
                k = k + 1;
            }
            proof {
                lemma_run_len(inp);
                lemma_run_len(inp.skip(1));
            }
            assert(seg_end(inp) == k - i);
            let ghost before = out@;
            let mut j: usize = i;
            while j < k
                invariant
                    i <= j <= k <= n,
                    n == pv.len(),
            pv == path@.take(end as int),
            end <= path@.len(),
                    out@ == before + pv.subrange(i as int, j as int),
                decreases k - j,
            {
                out.push(path[j]);
                j = j + 1;
                assert(out@ =~= before + pv.subrange(i as int, j as int));
            }
            assert(inp.take(k - i) =~= pv.subrange(i as int, k as int));
            assert(inp.skip(k - i) =~= pv.skip(k as int));
            i = k;
        }
    }
    out
}

/// A reference with dot segments removed from its path part.
fn strip_dots(reference: &str) -> (r: String)
    ensures
        r@ == without_dots(reference@),
{
    let cs = chars_of(reference);
    let n = cs.len();
    let mut k: usize = 0;
    assert(cs@.skip(0) =~= cs@);
    while k < n && cs[k] != '?' && cs[k] != '#'
        invariant
            k <= n,
            n == cs@.len(),
            path_part_len(cs@) == k + path_part_len(cs@.skip(k as int)),
        decreases n - k,
    {
        assert(cs@.skip(k as int).drop_first() =~= cs@.skip(k + 1));
        k = k + 1;
    }
    assert(cs@ == reference@);
    let cleaned = remove_dot_segments(cs.as_slice(), k);
    let mut r = string_of(cleaned.as_slice(), 0, cleaned.len());
    assert(cleaned@.subrange(0, cleaned@.len() as int) =~= cleaned@);
    let rest = string_of(cs.as_slice(), k, n);
    assert(cs@.subrange(k as int, n as int) =~= reference@.skip(k as int));
    push_str(&mut r, rest.as_str());
    r
}

/// The target of a redirect to `location` from a base URL with the given
/// scheme, host, port and path (with its query, if any): an absolute location
/// (starting with "http") is used as it is; a network-path one ("//host...")
/// gets the base scheme; the others are resolved against the base as RFC
/// 3986 resolves references: an absolute path is appended to
/// "scheme://host[:port]", an empty reference or a query keeps the base path,
/// a relative path replaces the last segment of the base path, and dot
/// segments are then removed from the path (scheme "https", host "" and path
/// "/" when the base has none).
pub open spec fn redirect_target(
    location: Seq<char>,
    base_scheme: Option<Seq<char>>,
    base_host: Option<Seq<char>>,
    base_port: Option<u16>,
    base_path: Option<Seq<char>>,
) -> Seq<char> {
    if starts_with(location, "http"@) {
        location
    } else {
        let scheme = match base_scheme {
            Some(s) => s,
            None => "https"@,
        };
        let host = match base_host {
            Some(h) => h,
            None => Seq::empty(),
        };
        let port = match base_port {
            Some(p) => ":"@ + decimal(p as nat),
            None => Seq::empty(),
        };
        let path = match base_path {
            Some(p) => first_piece(p, '?'),
            None => "/"@,
        };
        if starts_with(location, "//"@) {
            scheme + ":"@ + location
        } else if starts_with(location, "/"@) {
            scheme + "://"@ + host + port + without_dots(location)
        } else if location.len() == 0 || starts_with(location, "?"@) {
            scheme + "://"@ + host + port + path + location
        } else {
            scheme + "://"@ + host + port + without_dots(path_dir(path) + location)
        }
    }
}

/// The base path of a request target (the part before any "?"), "/" when
/// there is none.
fn base_path_of(raw: Option<&str>) -> (r: String)
    ensures
        r@ == match opt_view(raw) {
            Some(p) => first_piece(p, '?'),
            None => "/"@,
        },
{
    match raw {
        Some(p) => {
            let cs = chars_of(p);
            let e = first_piece_bounds(cs.as_slice(), '?', 0, cs.len());
            assert(cs@.subrange(0, cs@.len() as int) =~= p@);
            string_of(cs.as_slice(), 0, e)
        },
        None => owned("/"),
    }
}

/// The directory of a path.
fn dir_of(path: &str) -> (r: String)
    ensures
        r@ == path_dir(path@),
{
    let cs = chars_of(path);
    let mut i: usize = cs.len();
    assert(path@.take(i as int) =~= path@);
    while i > 0
        invariant
            i <= cs@.len(),
            cs@ == path@,
            path_dir(path@) == path_dir(path@.take(i as int)),
        decreases i,
    {
        if cs[i - 1] == '/' {
            assert(cs@.subrange(0, i as int) =~= path@.take(i as int));
            return string_of(cs.as_slice(), 0, i);
        }
        assert(path@.take(i as int).drop_last() =~= path@.take(i - 1));
        i = i - 1;
    }
    proof {
        reveal_strlit("/");
        assert(path@.take(0) =~= Seq::<char>::empty());
    }
    owned("/")
}

/// The text of the redirect URL for a Location header value and the parts of
/// the URL that was requested.
pub fn redirect_url_text(
    location: &str,
    base_scheme: Option<&str>,
    base_host: Option<&str>,
    base_port: Option<u16>,
    base_path: Option<&str>,
) -> (r: String)
    ensures
        r@ == redirect_target(location@, opt_view(base_scheme), opt_view(base_host), base_port, opt_view(base_path)),
{
    if str_starts_with(location, "http") {
        return owned(location);
    }
    let mut r = String::new();
    match base_scheme {
        Some(s) => push_str(&mut r, s),
        None => push_str(&mut r, "https"),
    }
    if str_starts_with(location, "//") {
        push_str(&mut r, ":");
        push_str(&mut r, location);
        return r;
    }
    push_str(&mut r, "://");
    match base_host {
        Some(h) => push_str(&mut r, h),
        None => {},
    }
    match base_port {
        Some(p) => {
            push_str(&mut r, ":");
            push_decimal(&mut r, p as u64);
        },
        None => {},
    }
    if str_starts_with(location, "/") {
        let clean = strip_dots(location);
        push_str(&mut r, clean.as_str());
        return r;
    }
    let path = base_path_of(base_path);
    if location.unicode_len() == 0 || str_starts_with(location, "?") {
        push_str(&mut r, path.as_str());
        push_str(&mut r, location);
    } else {
        let mut merged = dir_of(path.as_str());
        push_str(&mut merged, location);
        let clean = strip_dots(merged.as_str());
        push_str(&mut r, clean.as_str());
    }
    r
}

/// A parsed URI (`hyper::Uri`).
#[verifier::external_type_specification]
#[verifier::external_body]
pub struct ExUri(hyper::Uri);

/// What `str::parse::<hyper::Uri>` gives for a text: the URI with its scheme
/// (`Uri::scheme_str`) and authority (`Uri::authority`) as text, or the text
/// of its `InvalidUri` error.
pub uninterp spec fn uri_parsed(text: Seq<char>) -> Result<
    (hyper::Uri, Option<Seq<char>>, Option<Seq<char>>),
    Seq<char>,
>;

/// Trusted: `str::parse::<hyper::Uri>`, with the parsed URI's scheme and
/// authority read back as text, or the error's text on failure.  The
/// contract names the result for the text; what a URI holds beyond its
/// scheme and authority is not restated here.
#[verifier::external_body]
pub(crate) fn parse_uri(text: &str) -> (r: Result<(hyper::Uri, Option<String>, Option<String>), String>)
    ensures
        match r {
            Ok((u, s, a)) => uri_parsed(text@) matches Ok(t) && t.0 == u && t.1 == opt_string_view(s)
                && t.2 == opt_string_view(a),
            Err(e) => uri_parsed(text@) == Err::<(hyper::Uri, Option<Seq<char>>, Option<Seq<char>>), Seq<char>>(e@),
        },
{
    match text.parse::<hyper::Uri>() {
        Ok(u) => {
            let s = u.scheme_str().map(str::to_string);
            let a = u.authority().map(hyper::http::uri::Authority::as_str).map(str::to_string);
            Ok((u, s, a))
        },
        Err(e) => Err(e.to_string()),
    }
}

/// The view of an optional owned string.
pub open spec fn opt_string_view(s: Option<String>) -> Option<Seq<char>> {
    match s {
        Some(t) => Some(t@),
        None => None,
    }
}

/// Builds the redirect URL from a Location header value and the parts of the
/// URL that was requested, and parses it as a URI.
pub fn build_redirect_url(
    location: &str,
    base_scheme: Option<&str>,
    base_host: Option<&str>,
    base_port: Option<u16>,
    base_path: Option<&str>,
) -> (r: Result<hyper::Uri, String>)
    ensures
        ({
            let text = redirect_target(
                location@,
                opt_view(base_scheme),
                opt_view(base_host),
                base_port,
                opt_view(base_path),
            );
            match r {
                Ok(u) => uri_parsed(text) matches Ok(t) && t.0 == u,
                Err(e) => uri_parsed(text) == Err::<(hyper::Uri, Option<Seq<char>>, Option<Seq<char>>), Seq<char>>(e@),
            }
        }),
{
    let text = redirect_url_text(location, base_scheme, base_host, base_port, base_path);
    match parse_uri(text.as_str()) {
        Ok((u, _, _)) => Ok(u),
        Err(e) => Err(e),
    }
}

/// The next step while following redirects.
#[derive(Debug)]
pub enum RedirectAction {
    /// The response is final: hand it back.
    Finish,
    /// Follow the redirect: request `url` with `method`.
    /// `keep_body` says whether the body is sent again: only when the
    /// method stays the same.
    Follow { url: String, method: Method, keep_body: bool },
    /// The redirect to `url` would exceed the redirect limit: the request
    /// fails with "too many redirects".
    TooManyRedirects { url: String },
}

/// Whether another request may be made after `redirect_count` redirects.
pub open spec fn may_request(redirect_count: u8) -> bool {
    redirect_count < MAX_REDIRECTS
}

/// Whether the loop must stop with "too many redirects" before making a
/// request, after `redirect_count` redirects were followed.
pub fn redirect_limit_reached(redirect_count: u8) -> (r: bool)
    ensures
        r == !may_request(redirect_count),
{
    redirect_count >= MAX_REDIRECTS
}

/// Decides what follows a response while following redirects.
///
/// `should_redirect` is the caller's verdict on the response status;
/// `location` is the Location header if present; the request that produced
/// the response had `method` and URL parts `base_*` (`base_path` the path
/// and query of its target).
pub fn redirect_decision(
    should_redirect: bool,
    status_code: u16,
    location: Option<&str>,
    method: &Method,
    base_scheme: Option<&str>,
    base_host: Option<&str>,
    base_port: Option<u16>,
    base_path: Option<&str>,
) -> (r: RedirectAction)
    ensures
        !should_redirect ==> r is Finish,
        should_redirect && location.is_none() ==> r is Finish,
        should_redirect && location.is_some() ==> match r {
            RedirectAction::Follow { url, method: m, keep_body } => {
                &&& keep_body == same_method(m, *method)
                &&& url@ == redirect_target(
                    location.unwrap()@,
                    opt_view(base_scheme),
                    opt_view(base_host),
                    base_port,
                    opt_view(base_path),
                )
                &&& match redirect_method(*method, status_code) {
                    Some(rm) => m == rm,
                    None => same_method(m, *method),
                }
            },
            _ => false,
        },
{
    if !should_redirect {
        return RedirectAction::Finish;
    }
    match location {
        None => RedirectAction::Finish,
        Some(loc) => {
            let url = redirect_url_text(loc, base_scheme, base_host, base_port, base_path);
            let m = get_redirect_method(method, status_code);
            let keep_body = method_eq(&m, method);
            RedirectAction::Follow { url, method: m, keep_body }
        },
    }
}

/// One step of following redirects, with `redirect_count` redirects already
/// followed and at most `max_redirects` allowed: a final response or one
/// without a Location ends the loop; a redirect beyond the limit is refused
/// (the request fails, naming the refused target); otherwise the redirect is
/// followed as `redirect_decision` says, and the response just received
/// joins the history.
pub fn redirect_step(
    redirect_count: usize,
    max_redirects: usize,
    should_redirect: bool,
    status_code: u16,
    location: Option<&str>,
    method: &Method,
    base_scheme: Option<&str>,
    base_host: Option<&str>,
    base_port: Option<u16>,
    base_path: Option<&str>,
) -> (r: RedirectAction)
    ensures
        !should_redirect || location.is_none() ==> r is Finish,
        should_redirect && location.is_some() && redirect_count >= max_redirects ==> match r {
            RedirectAction::TooManyRedirects { url } => url@ == redirect_target(
                location.unwrap()@,
                opt_view(base_scheme),
                opt_view(base_host),
                base_port,
                opt_view(base_path),
            ),
            _ => false,
        },
        should_redirect && location.is_some() && redirect_count < max_redirects ==> match r {
            RedirectAction::Follow { url, method: m, keep_body } => {
                &&& keep_body == same_method(m, *method)
                &&& url@ == redirect_target(
                    location.unwrap()@,
                    opt_view(base_scheme),
                    opt_view(base_host),
                    base_port,
                    opt_view(base_path),
                )
                &&& match redirect_method(*method, status_code) {
                    Some(rm) => m == rm,
                    None => same_method(m, *method),
                }
            },
            _ => false,
        },
{
    let d = redirect_decision(
        should_redirect,
        status_code,
        location,
        method,
        base_scheme,
        base_host,
        base_port,
        base_path,
    );
    match d {
        RedirectAction::Follow { url, method: m, keep_body } => {
            if redirect_count >= max_redirects {
                RedirectAction::TooManyRedirects { url }
            } else {
                RedirectAction::Follow { url, method: m, keep_body }
            }
        },
        other => other,
    }
}

/// The message of a request refused for too many redirects, naming the
/// redirect target that was refused.
pub fn too_many_redirects_message(url: &str) -> (r: String)
    ensures
        r@ == "error following redirect for url ("@ + url@ + ")"@,
{
    let mut r = owned("error following redirect for url (");
    push_str(&mut r, url);
    push_str(&mut r, ")");
    r
}

} // verus!
