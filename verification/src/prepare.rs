//! Preparing a request: the Host header, authentication headers, the headers
//! kept across a redirect, mount-pattern matching, the query string, and the
//! body with the headers that describe it.
use crate::auth::{basic_auth_header, spec_basic_auth};
use crate::codecs::{percent_encode, url_encode};
use crate::cookies::Cookies;
use crate::headers::{has_key, set_spec, without_key, Headers, Items};
use crate::multipart::{extract_boundary_from_content_type, spec_extract_boundary};
use crate::text::{
    chars_of, concat2, concat3, decimal, decimal_string, enc, ends_with, find_sub, first_piece,
    first_piece_bounds, has_prefix_at, join, join_strings, owned, pairs_view, second_piece,
    starts_with, str_contains, str_ends_with, str_eq, str_lower, str_upper, string_of, strings_view,
    to_upper, lemma_strings_view_push,
};
use crate::url_parts::{parse_url, url_host, url_joined, url_parsed, url_port};
use crate::url_model::{spec_get_host_str, spec_get_scheme, URLView, URL};
use crate::url_build::spec_new_impl;
use crate::redirect::{method_from_name, method_text, standard_method, Method};
use crate::headers::update_spec;
use crate::body::{build_multipart_body, generate_boundary, is_form_boundary, spec_multipart, FilePart};
use vstd::prelude::*;

verus! {

// ----- Host header ---------------------------------------------------------

/// The default port of a scheme (0 for schemes other than http and https).
pub open spec fn default_port(scheme: Seq<char>) -> int {
    if scheme == "http"@ {
        80
    } else if scheme == "https"@ {
        443
    } else {
        0
    }
}

/// The default port of a scheme.
pub fn scheme_default_port(scheme: &str) -> (r: u16)
    ensures
        r == default_port(scheme@),
{
    if str_eq(scheme, "http") {
        80
    } else if str_eq(scheme, "https") {
        443
    } else {
        0
    }
}

/// The Host header for a host, port and scheme: the port is included only
/// when it differs from the scheme's default.
pub open spec fn spec_host_header(host: Seq<char>, port: Option<u16>, scheme: Seq<char>) -> Seq<char> {
    match port {
        Some(p) => if p != default_port(scheme) {
            host + ":"@ + decimal(p as nat)
        } else {
            host
        },
        None => host,
    }
}

/// Builds the Host header value from a URL's host, port and scheme.
pub fn get_host_header(host: &str, port: Option<u16>, scheme: &str) -> (r: String)
    ensures
        r@ == spec_host_header(host@, port, scheme@),
{
    match port {
        Some(p) => {
            if p != scheme_default_port(scheme) {
                let digits = decimal_string(p as u64);
                concat3(host, ":", digits.as_str())
            } else {
                owned(host)
            }
        },
        None => owned(host),
    }
}

/// The Host header for a URL that may have no host.
pub fn host_header_value(host: Option<&str>, port: Option<u16>, scheme: &str) -> (r: Option<String>)
    ensures
        match host {
            Some(h) => r matches Some(v) && v@ == spec_host_header(h@, port, scheme@),
            None => r is None,
        },
{
    match host {
        Some(h) => Some(get_host_header(h, port, scheme)),
        None => None,
    }
}

// ----- Authentication headers ----------------------------------------------

/// Sets the Authorization header to Basic credentials.
pub fn apply_basic_auth(headers: &mut Headers, username: &str, password: &str)
    ensures
        final(headers).items() == set_spec(
            old(headers).items(),
            "Authorization"@,
            spec_basic_auth(username@, password@),
        ),
        final(headers).spec_from_dict() == old(headers).spec_from_dict(),
        final(headers).spec_encoding() == old(headers).spec_encoding(),
{
    let value = basic_auth_header(username, password);
    headers.set(owned("Authorization"), value);
}

/// The credentials in a URL are used only when no Authorization header is
/// set and the URL names a user; a missing password counts as "".
pub open spec fn url_auth_items(items: Items, username: Seq<char>, password: Option<Seq<char>>) -> Items {
    if !has_key(items, str_lower("authorization"@)) && username.len() > 0 {
        set_spec(
            items,
            "Authorization"@,
            spec_basic_auth(
                username,
                match password {
                    Some(p) => p,
                    None => Seq::empty(),
                },
            ),
        )
    } else {
        items
    }
}

/// Applies the credentials of a URL's userinfo to the headers.
pub fn apply_url_auth(headers: &mut Headers, username: &str, password: Option<&str>)
    ensures
        final(headers).items() == url_auth_items(
            old(headers).items(),
            username@,
            match password {
                Some(p) => Some(p@),
                None => None,
            },
        ),
        final(headers).spec_from_dict() == old(headers).spec_from_dict(),
        final(headers).spec_encoding() == old(headers).spec_encoding(),
{
    proof {
        reveal_strlit("");
    }
    if !headers.contains("authorization") && !username.is_empty() {
        match password {
            Some(p) => apply_basic_auth(headers, username, p),
            None => apply_basic_auth(headers, username, ""),
        }
    }
}

/// What a request does about authentication.
pub enum AuthAction<C> {
    /// Use the client's credentials, if it has any.
    UseClientDefault,
    /// Send no credentials.
    Disabled,
    /// Send these Basic credentials.
    Basic(String, String),
    /// Hand the request to a callable.
    Callable(C),
}

/// Applies the chosen authentication: Basic credentials go into the
/// Authorization header; a callable is handed back to the caller.
pub fn resolve_and_apply_auth<C>(
    auth_action: AuthAction<C>,
    client_auth: &Option<(String, String)>,
    headers: &mut Headers,
) -> (r: Option<C>)
    ensures
        match auth_action {
            AuthAction::UseClientDefault => r is None && match client_auth {
                Some(pair) => final(headers).items() == set_spec(
                    old(headers).items(),
                    "Authorization"@,
                    spec_basic_auth(pair.0@, pair.1@),
                ),
                None => final(headers).items() == old(headers).items(),
            },
            AuthAction::Disabled => r is None && final(headers).items() == old(headers).items(),
            AuthAction::Basic(u, p) => r is None && final(headers).items() == set_spec(
                old(headers).items(),
                "Authorization"@,
                spec_basic_auth(u@, p@),
            ),
            AuthAction::Callable(f) => r == Some(f) && final(headers).items() == old(
                headers,
            ).items(),
        },
        final(headers).spec_from_dict() == old(headers).spec_from_dict(),
        final(headers).spec_encoding() == old(headers).spec_encoding(),
{
    match auth_action {
        AuthAction::UseClientDefault => {
            match client_auth {
                Some(pair) => apply_basic_auth(headers, pair.0.as_str(), pair.1.as_str()),
                None => {},
            }
            None
        },
        AuthAction::Disabled => None,
        AuthAction::Basic(username, password) => {
            apply_basic_auth(headers, username.as_str(), password.as_str());
            None
        },
        AuthAction::Callable(auth_fn) => Some(auth_fn),
    }
}

// ----- Redirects -----------------------------------------------------------

/// The port used for comparing origins: the explicit port, else 443 for
/// "https" and 80 otherwise.
pub open spec fn effective_port(scheme: Seq<char>, port: Option<u16>) -> int {
    match port {
        Some(p) => p as int,
        None => if scheme == "https"@ {
            443
        } else {
            80
        },
    }
}

/// Whether Authorization survives a redirect from one URL to another: the
/// origins agree (schemes compared uppercased, hosts lowercased, effective
/// ports equal), or the redirect is an upgrade from http to https on the same
/// host with the default ports.
pub open spec fn keeps_authorization(
    from_scheme: Seq<char>,
    from_host: Seq<char>,
    from_port: Option<u16>,
    to_scheme: Seq<char>,
    to_host: Seq<char>,
    to_port: Option<u16>,
) -> bool {
    let same_host = str_lower(from_host) == str_lower(to_host);
    let same_scheme = str_upper(from_scheme) == str_upper(to_scheme);
    let fp = effective_port(from_scheme, from_port);
    let tp = effective_port(to_scheme, to_port);
    let same_origin = same_scheme && same_host && fp == tp;
    let upgrade = !same_scheme && from_scheme == "http"@ && to_scheme == "https"@ && same_host && fp
        == 80 && tp == 443;
    same_origin || upgrade
}

fn port_or_default(scheme: &str, port: Option<u16>) -> (r: u16)
    ensures
        r == effective_port(scheme@, port),
{
    match port {
        Some(p) => p,
        None => if str_eq(scheme, "https") {
            443
        } else {
            80
        },
    }
}

/// The headers sent with a redirected request: the Host header names the new
/// URL, and Authorization is dropped unless the redirect keeps it.
pub fn redirect_headers(
    headers: &Headers,
    from_scheme: &str,
    from_host: &str,
    from_port: Option<u16>,
    to_scheme: &str,
    to_host: &str,
    to_port: Option<u16>,
) -> (r: Headers)
    ensures
        ({
            let with_host = set_spec(
                headers.items(),
                "Host"@,
                spec_host_header(to_host@, to_port, to_scheme@),
            );
            r.items() == if keeps_authorization(
                from_scheme@,
                from_host@,
                from_port,
                to_scheme@,
                to_host@,
                to_port,
            ) {
                with_host
            } else {
                without_key(with_host, str_lower("authorization"@))
            }
        }),
{
    let mut out = headers.copy();
    let fh = crate::text::to_lower(from_host);
    let th = crate::text::to_lower(to_host);
    let fs = to_upper(from_scheme);
    let ts = to_upper(to_scheme);
    let same_host = str_eq(fh.as_str(), th.as_str());
    let same_scheme = str_eq(fs.as_str(), ts.as_str());
    let fp = port_or_default(from_scheme, from_port);
    let tp = port_or_default(to_scheme, to_port);
    let same_origin = same_scheme && same_host && fp == tp;
    let upgrade = !same_scheme && str_eq(from_scheme, "http") && str_eq(to_scheme, "https")
        && same_host && fp == 80 && tp == 443;
    let new_host = get_host_header(to_host, to_port, to_scheme);
    out.set(owned("Host"), new_host);
    if !same_origin && !upgrade {
        out.remove("authorization");
    }
    out
}

// ----- Base URL, query string ----------------------------------------------

/// A base URL always ends with "/".
pub fn normalize_base_url(url: &str) -> (r: String)
    ensures
        r@ == if ends_with(url@, "/"@) {
            url@
        } else {
            url@ + "/"@
        },
{
    if str_ends_with(url, "/") {
        owned(url)
    } else {
        concat2(url, "/")
    }
}

/// The URL with an encoded query string added: nothing when the query is
/// empty, after "&" when the URL already has a "?", else after "?".
pub fn append_query(url: &str, query: &str) -> (r: String)
    ensures
        r@ == if query@.len() == 0 {
            url@
        } else if url@.contains('?') {
            url@ + "&"@ + query@
        } else {
            url@ + "?"@ + query@
        },
{
    if query.is_empty() {
        owned(url)
    } else if crate::text::contains_char(url, '?') {
        concat3(url, "&", query)
    } else {
        concat3(url, "?", query)
    }
}

/// A reference joined onto a base URL's text: the base parsed, then the
/// reference joined onto it; or the message of the first error.
pub open spec fn joined_url(base: Seq<char>, reference: Seq<char>) -> Result<Seq<char>, Seq<char>> {
    match url_parsed(base) {
        Ok(t) => url_joined(t, reference),
        Err(e) => Err(e),
    }
}

fn url_join(base: &str, reference: &str) -> (r: Result<String, String>)
    ensures
        match joined_url(base@, reference@) {
            Ok(j) => r matches Ok(s) && s@ == j,
            Err(e) => r matches Err(m) && m@ == e,
        },
{
    match parse_url(base) {
        Ok(b) => match b.join(reference) {
            Ok(u) => Ok(owned(u.as_str())),
            Err(e) => Err(e),
        },
        Err(e) => Err(e),
    }
}

/// A request URL resolved against the client's base URL: a URL with "://" is
/// used as given, as is any URL when there is no base; otherwise it is joined
/// to the base.
pub fn resolve_url(base: Option<&str>, url: &str) -> (r: Result<String, String>)
    ensures
        match base {
            Some(b) => if find_sub(url@, "://"@) is None {
                match joined_url(b@, url@) {
                    Ok(j) => r matches Ok(s) && s@ == j,
                    Err(e) => r matches Err(m) && m@ == e,
                }
            } else {
                r matches Ok(s) && s@ == url@
            },
            None => r matches Ok(s) && s@ == url@,
        },
{
    match base {
        Some(b) => {
            if !str_contains(url, "://") {
                return url_join(b, url);
            }
            Ok(owned(url))
        },
        None => Ok(owned(url)),
    }
}

// ----- Mount patterns ------------------------------------------------------

/// The scheme of a URL or pattern: the text before the first "://".
pub open spec fn scheme_of(s: Seq<char>) -> Seq<char> {
    match find_sub(s, "://"@) {
        Some(i) => s.take(i),
        None => s,
    }
}

/// The host (with port) of a URL or pattern: after "://", up to the next "/";
/// empty when there is no "://".
pub open spec fn host_of(s: Seq<char>) -> Seq<char> {
    match find_sub(s, "://"@) {
        Some(i) => first_piece(s.skip(i + "://"@.len()), '/'),
        None => Seq::empty(),
    }
}

/// A pattern's port requirement: none, or exactly the URL's port.
pub open spec fn port_ok(url_port: Option<Seq<char>>, pattern_port: Option<Seq<char>>) -> bool {
    match pattern_port {
        None => true,
        Some(pp) => url_port == Some(pp),
    }
}

/// Whether a URL matches a mount pattern: "all://" matches everything; the
/// scheme must agree unless the pattern's is "all"; a pattern without host,
/// or with host "*", matches any host; "*.d" matches subdomains of d only;
/// "*d" matches d and its subdomains; otherwise the host must be equal; a
/// pattern port must equal the URL's port.
pub open spec fn spec_url_matches_pattern(url: Seq<char>, pattern: Seq<char>) -> bool {
    if pattern == "all://"@ {
        true
    } else {
        let us = scheme_of(url);
        let ps = scheme_of(pattern);
        if ps != "all"@ && ps != us {
            false
        } else {
            let uh = host_of(url);
            let ph = host_of(pattern);
            if ph.len() == 0 || ph == "*"@ {
                true
            } else {
                let uhn = first_piece(uh, ':');
                let up = second_piece(uh, ':');
                let phn = first_piece(ph, ':');
                let pp = second_piece(ph, ':');
                if starts_with(phn, "*."@) {
                    ends_with(uhn, "."@ + phn.skip("*."@.len() as int)) && port_ok(up, pp)
                } else if starts_with(phn, "*"@) {
                    let suffix = phn.skip("*"@.len() as int);
                    (uhn == suffix || ends_with(uhn, "."@ + suffix)) && port_ok(up, pp)
                } else {
                    uhn == phn && port_ok(up, pp)
                }
            }
        }
    }
}

fn opt_text(o: &Option<String>) -> (r: Option<&str>)
    ensures
        match o {
            Some(s) => r matches Some(t) && t@ == s@,
            None => r is None,
        },
{
    match o {
        Some(s) => Some(s.as_str()),
        None => None,
    }
}

/// The plain view of an optional string slice.
pub open spec fn opt_str(o: Option<&str>) -> Option<Seq<char>> {
    match o {
        Some(s) => Some(s@),
        None => None,
    }
}

/// Checks a URL port against a pattern port.
pub fn port_matches(url_port: Option<&str>, pattern_port: Option<&str>) -> (r: bool)
    ensures
        r == port_ok(opt_str(url_port), opt_str(pattern_port)),
{
    match pattern_port {
        None => true,
        Some(pp) => match url_port {
            Some(up) => str_eq(up, pp),
            None => false,
        },
    }
}

/// Splits a URL or pattern into scheme and host.
fn split_scheme_host(s: &str) -> (r: (String, String))
    ensures
        r.0@ == scheme_of(s@),
        r.1@ == host_of(s@),
{
    let cs = chars_of(s);
    let sep = chars_of("://");
    match crate::text::find_sub_at(cs.as_slice(), sep.as_slice(), 0) {
        Some(k) => {
            let n = cs.len();
            let m = sep.len();
            assert(k + m <= n);
            let start = k + m;
            let e = first_piece_bounds(cs.as_slice(), '/', start, cs.len());
            assert(cs@.subrange(start as int, cs@.len() as int) =~= s@.skip(start as int));
            assert(cs@.subrange(0, k as int) =~= s@.take(k as int));
            (string_of(cs.as_slice(), 0, k), string_of(cs.as_slice(), start, e))
        },
        None => (owned(s), String::new()),
    }
}

/// Splits a host into name and optional port at ':'.
fn split_port(h: &str) -> (r: (String, Option<String>))
    ensures
        r.0@ == first_piece(h@, ':'),
        match r.1 {
            Some(p) => second_piece(h@, ':') == Some(p@),
            None => second_piece(h@, ':') is None,
        },
{
    let cs = chars_of(h);
    let n = cs.len();
    let e = first_piece_bounds(cs.as_slice(), ':', 0, n);
    assert(cs@.subrange(0, n as int) =~= h@);
    let name = string_of(cs.as_slice(), 0, e);
    if e < n {
        let e2 = first_piece_bounds(cs.as_slice(), ':', e + 1, n);
        assert(cs@.subrange(e + 1, n as int) =~= h@.skip(e + 1));
        (name, Some(string_of(cs.as_slice(), e + 1, e2)))
    } else {
        (name, None)
    }
}

/// Whether a URL matches a mount pattern.
pub fn url_matches_pattern(url: &str, pattern: &str) -> (r: bool)
    ensures
        r == spec_url_matches_pattern(url@, pattern@),
{
    if str_eq(pattern, "all://") {
        return true;
    }
    let (us, uh) = split_scheme_host(url);
    let (ps, ph) = split_scheme_host(pattern);
    if !str_eq(ps.as_str(), "all") && !str_eq(ps.as_str(), us.as_str()) {
        return false;
    }
    if ph.as_str().is_empty() || str_eq(ph.as_str(), "*") {
        return true;
    }
    let (uhn, up) = split_port(uh.as_str());
    let (phn, pp) = split_port(ph.as_str());
    let ports = port_matches(opt_text(&up), opt_text(&pp));
    let pcs = chars_of(phn.as_str());
    let star_dot = chars_of("*.");
    let star = chars_of("*");
    assert(pcs@.skip(0) =~= pcs@);
    if has_prefix_at(pcs.as_slice(), 0, star_dot.as_slice()) {
        let suffix = string_of(pcs.as_slice(), star_dot.len(), pcs.len());
        assert(pcs@.subrange(star_dot@.len() as int, pcs@.len() as int) =~= phn@.skip(
            "*."@.len() as int,
        ));
        let dotted = concat2(".", suffix.as_str());
        return str_ends_with(uhn.as_str(), dotted.as_str()) && ports;
    }
    if has_prefix_at(pcs.as_slice(), 0, star.as_slice()) {
        let suffix = string_of(pcs.as_slice(), star.len(), pcs.len());
        assert(pcs@.subrange(star@.len() as int, pcs@.len() as int) =~= phn@.skip(
            "*"@.len() as int,
        ));
        let dotted = concat2(".", suffix.as_str());
        return (str_eq(uhn.as_str(), suffix.as_str()) || str_ends_with(uhn.as_str(), dotted.as_str()))
            && ports;
    }
    str_eq(uhn.as_str(), phn.as_str()) && ports
}

/// The mount to use for a URL: a matching pattern of greatest length in
/// bytes (the first such in the given order).
pub fn select_mount(url: &str, patterns: &Vec<String>) -> (r: Option<usize>)
    ensures
        match r {
            Some(i) => i < patterns@.len() && spec_url_matches_pattern(url@, patterns@[i as int]@)
                && forall|j: int|
                0 <= j < patterns@.len() && spec_url_matches_pattern(url@, #[trigger] patterns@[j]@)
                    ==> enc(patterns@[j]@).len() <= enc(patterns@[i as int]@).len(),
            None => forall|j: int|
                0 <= j < patterns@.len() ==> !spec_url_matches_pattern(url@, #[trigger] patterns@[j]@),
        },
{
    let mut best: Option<usize> = None;
    let mut i: usize = 0;
    while i < patterns.len()
        invariant
            i <= patterns@.len(),
            match best {
                Some(b) => b < i && spec_url_matches_pattern(url@, patterns@[b as int]@) && forall|
                    j: int,
                |
                    0 <= j < i && spec_url_matches_pattern(url@, #[trigger] patterns@[j]@)
                        ==> enc(patterns@[j]@).len() <= enc(patterns@[b as int]@).len(),
                None => forall|j: int|
                    0 <= j < i ==> !spec_url_matches_pattern(url@, #[trigger] patterns@[j]@),
            },
        decreases patterns.len() - i,
    {
        if url_matches_pattern(url, patterns[i].as_str()) {
            match best {
                Some(b) => {
                    let li = crate::text::str_bytes(patterns[i].as_str()).len();
                    let lb = crate::text::str_bytes(patterns[b].as_str()).len();
                    if li > lb {
                        best = Some(i);
                    }
                },
                None => {
                    best = Some(i);
                },
            }
        }
        i = i + 1;
    }
    best
}

/// The refusal of a mount pattern: `None` when it holds "://", otherwise the
/// message that suggests adding it.
pub open spec fn spec_mount_pattern_error(pattern: Seq<char>) -> Option<Seq<char>> {
    if find_sub(pattern, "://"@) is Some {
        None
    } else {
        Some("Mount pattern '"@ + pattern + "' is invalid. Did you mean '"@ + pattern + "://'?"@)
    }
}

/// Checks a mount pattern given to a client: `None` when it is usable, the
/// error message when it holds no "://".
pub fn mount_pattern_error(pattern: &str) -> (r: Option<String>)
    ensures
        match r {
            Some(m) => spec_mount_pattern_error(pattern@) == Some(m@),
            None => spec_mount_pattern_error(pattern@) is None,
        },
{
    if str_contains(pattern, "://") {
        None
    } else {
        let a = concat3("Mount pattern '", pattern, "' is invalid. Did you mean '");
        let b = concat3(a.as_str(), pattern, "://'?");
        Some(b)
    }
}

// ----- Request headers and body --------------------------------------------

/// The headers every client starts with, then the user's on top (each set,
/// replacing what was there).
pub open spec fn default_header_items(version: Seq<char>) -> Items {
    let a = set_spec(Seq::empty(), "Accept"@, "*/*"@);
    let b = set_spec(a, "Accept-Encoding"@, "gzip, deflate, br, zstd"@);
    let c = set_spec(b, "Connection"@, "keep-alive"@);
    set_spec(c, "User-Agent"@, "python-httpx/"@ + version)
}

/// Applies `set` for each pair in order.
pub open spec fn set_all(items: Items, pairs: Items) -> Items
    decreases pairs.len(),
{
    if pairs.len() == 0 {
        items
    } else {
        set_spec(set_all(items, pairs.drop_last()), pairs.last().0, pairs.last().1)
    }
}

/// Sets every pair of `pairs` on `headers`, in order.
pub fn set_each(headers: &mut Headers, pairs: &Vec<(String, String)>)
    ensures
        final(headers).items() == set_all(old(headers).items(), pairs_view(pairs@)),
        final(headers).spec_from_dict() == old(headers).spec_from_dict(),
        final(headers).spec_encoding() == old(headers).spec_encoding(),
{
    let ghost start = headers.items();
    let ghost src = pairs_view(pairs@);
    let mut i: usize = 0;
    while i < pairs.len()
        invariant
            i <= pairs@.len(),
            src == pairs_view(pairs@),
            headers.items() == set_all(start, src.take(i as int)),
            headers.spec_from_dict() == old(headers).spec_from_dict(),
            headers.spec_encoding() == old(headers).spec_encoding(),
        decreases pairs.len() - i,
    {
        headers.set(pairs[i].0.clone(), pairs[i].1.clone());
        assert(src.take(i + 1).drop_last() =~= src.take(i as int));
        i = i + 1;
    }
    assert(src.take(pairs@.len() as int) =~= src);
}

/// The default headers of a client of the given version, with the user's
/// headers set on top.
pub fn make_default_headers(user_headers: Option<&Headers>, version: &str) -> (r: Headers)
    ensures
        r.items() == match user_headers {
            Some(u) => set_all(default_header_items(version@), u.items()),
            None => default_header_items(version@),
        },
{
    let mut h = Headers::new();
    h.set(owned("Accept"), owned("*/*"));
    h.set(owned("Accept-Encoding"), owned("gzip, deflate, br, zstd"));
    h.set(owned("Connection"), owned("keep-alive"));
    h.set(owned("User-Agent"), concat2("python-httpx/", version));
    match user_headers {
        Some(u) => set_each(&mut h, u.inner()),
        None => {},
    }
    h
}

/// The Host header goes first unless one is set; a non-empty Cookie header
/// replaces any other.
pub open spec fn host_and_cookie_items(items: Items, host: Option<Seq<char>>, cookie: Seq<char>) -> Items {
    let with_host = match host {
        Some(h) => if !has_key(items, str_lower("host"@)) {
            seq![("Host"@, h)] + items
        } else {
            items
        },
        None => items,
    };
    if cookie.len() > 0 {
        set_spec(with_host, "Cookie"@, cookie)
    } else {
        with_host
    }
}

/// Adds the Host header (when none is set) and the Cookie header of a jar.
pub fn add_host_and_cookies(headers: &mut Headers, host: Option<String>, cookies: &Cookies)
    ensures
        final(headers).items() == host_and_cookie_items(
            old(headers).items(),
            match host {
                Some(h) => Some(h@),
                None => None,
            },
            crate::cookies::cookie_header(cookies.entries()),
        ),
        final(headers).spec_from_dict() == old(headers).spec_from_dict(),
        final(headers).spec_encoding() == old(headers).spec_encoding(),
{
    match host {
        Some(h) => {
            if !headers.contains("host") {
                headers.insert_front(owned("Host"), h);
            }
        },
        None => {},
    }
    let cookie_header = cookies.to_header_value();
    if !cookie_header.as_str().is_empty() {
        headers.set(owned("Cookie"), cookie_header);
    }
}

/// One form field, "key=value" with both sides percent-encoded.
pub open spec fn form_piece(p: (Seq<char>, Seq<char>)) -> Seq<char> {
    percent_encode(enc(p.0)) + "="@ + percent_encode(enc(p.1))
}

/// The pieces of a form body.
pub open spec fn form_pieces(pairs: Seq<(Seq<char>, Seq<char>)>) -> Seq<Seq<char>> {
    pairs.map_values(|p: (Seq<char>, Seq<char>)| form_piece(p))
}

/// An urlencoded form body: the encoded fields joined with "&".
pub fn encode_form(pairs: &Vec<(String, String)>) -> (r: String)
    ensures
        r@ == join(form_pieces(pairs_view(pairs@)), "&"@),
{
    let ghost src = pairs_view(pairs@);
    let mut pieces: Vec<String> = Vec::new();
    let mut i: usize = 0;
    while i < pairs.len()
        invariant
            i <= pairs@.len(),
            src == pairs_view(pairs@),
            strings_view(pieces@) == form_pieces(src.take(i as int)),
        decreases pairs.len() - i,
    {
        let k = url_encode(pairs[i].0.as_str());
        let v = url_encode(pairs[i].1.as_str());
        let piece = concat3(k.as_str(), "=", v.as_str());
        proof {
            lemma_strings_view_push(pieces@, piece);
        }
        pieces.push(piece);
        i = i + 1;
        assert(strings_view(pieces@) =~= form_pieces(src.take(i as int)));
    }
    assert(src.take(pairs@.len() as int) =~= src);
    join_strings(&pieces, "&")
}

/// The boundary and Content-Type of a multipart body: a boundary given in the
/// Content-Type already set is used and the header kept; when the header
/// names a boundary that cannot be read, or there is no Content-Type, the
/// generated boundary is used and announced; a Content-Type without a
/// boundary is kept as it is, with the generated boundary in the body.
pub open spec fn spec_multipart_framing(existing: Option<Seq<char>>, generated: Seq<char>) -> (Seq<char>, Seq<char>) {
    let announced = "multipart/form-data; boundary="@ + generated;
    match existing {
        Some(ct) => if find_sub(ct, "boundary="@) is Some {
            match spec_extract_boundary(ct) {
                Some(b) => (b, ct),
                None => (generated, announced),
            }
        } else {
            (generated, ct)
        },
        None => (generated, announced),
    }
}

/// Chooses the boundary and Content-Type of a multipart body.
pub fn multipart_framing(existing: Option<&str>, generated: &str) -> (r: (String, String))
    ensures
        (r.0@, r.1@) == spec_multipart_framing(opt_str(existing), generated@),
{
    let announced = concat2("multipart/form-data; boundary=", generated);
    match existing {
        Some(ct) => {
            if str_contains(ct, "boundary=") {
                match extract_boundary_from_content_type(ct) {
                    Some(b) => (b, owned(ct)),
                    None => (owned(generated), announced),
                }
            } else {
                (owned(generated), owned(ct))
            }
        },
        None => (owned(generated), announced),
    }
}

/// The body a request was given.
pub enum RequestBody {
    /// Raw bytes.
    Content(Vec<u8>),
    /// A JSON document, already serialised.
    Json(String),
    /// A multipart body with its Content-Type.
    Multipart(Vec<u8>, String),
    /// Form fields (at least one).
    Form(Vec<(String, String)>),
    /// An empty set of files and no form data: the headers are left alone.
    EmptyFiles,
    /// Nothing: methods that carry a body get "Content-Length: 0".
    Nothing,
}

/// Whether a method carries a body (compared uppercased).
pub open spec fn body_method(method: Seq<char>) -> bool {
    let m = str_upper(method);
    m == "POST"@ || m == "PUT"@ || m == "PATCH"@
}

/// Sets the Content-Type unless one is present.
pub open spec fn set_default(items: Items, k: Seq<char>, v: Seq<char>) -> Items {
    if has_key(items, str_lower("content-type"@)) {
        items
    } else {
        set_spec(items, k, v)
    }
}

/// The bytes sent for a body.
pub open spec fn body_bytes(body: RequestBody) -> Seq<u8> {
    match body {
        RequestBody::Content(c) => c@,
        RequestBody::Json(j) => enc(j@),
        RequestBody::Multipart(b, _) => b@,
        RequestBody::Form(f) => enc(join(form_pieces(pairs_view(f@)), "&"@)),
        _ => Seq::empty(),
    }
}

/// The headers that describe a body: Content-Length for every body given,
/// Content-Type "application/json" or "application/x-www-form-urlencoded"
/// unless set, the multipart Content-Type always; with no body,
/// "Content-Length: 0" for POST, PUT and PATCH.
pub open spec fn body_header_items(items: Items, method: Seq<char>, body: RequestBody) -> Items {
    let len = decimal(body_bytes(body).len());
    match body {
        RequestBody::Content(_) => set_spec(items, "Content-Length"@, len),
        RequestBody::Json(_) => set_default(
            set_spec(items, "Content-Length"@, len),
            "Content-Type"@,
            "application/json"@,
        ),
        RequestBody::Multipart(_, ct) => set_spec(
            set_spec(items, "Content-Length"@, len),
            "Content-Type"@,
            ct@,
        ),
        RequestBody::Form(_) => set_default(
            set_spec(items, "Content-Length"@, len),
            "Content-Type"@,
            "application/x-www-form-urlencoded"@,
        ),
        RequestBody::EmptyFiles => items,
        RequestBody::Nothing => if body_method(method) {
            set_spec(items, "Content-Length"@, "0"@)
        } else {
            items
        },
    }
}

fn set_length(headers: &mut Headers, n: usize)
    ensures
        final(headers).items() == set_spec(old(headers).items(), "Content-Length"@, decimal(n as nat)),
        final(headers).spec_from_dict() == old(headers).spec_from_dict(),
        final(headers).spec_encoding() == old(headers).spec_encoding(),
{
    headers.set(owned("Content-Length"), decimal_string(n as u64));
}

fn set_type_default(headers: &mut Headers, value: &str)
    ensures
        final(headers).items() == set_default(old(headers).items(), "Content-Type"@, value@),
        final(headers).spec_from_dict() == old(headers).spec_from_dict(),
        final(headers).spec_encoding() == old(headers).spec_encoding(),
{
    if !headers.contains("content-type") {
        headers.set(owned("Content-Type"), owned(value));
    }
}

/// Sets the headers that describe the body and returns the bytes to send.
pub fn apply_body(headers: &mut Headers, method: &str, body: RequestBody) -> (r: Vec<u8>)
    ensures
        r@ == body_bytes(body),
        final(headers).items() == body_header_items(old(headers).items(), method@, body),
        final(headers).spec_from_dict() == old(headers).spec_from_dict(),
        final(headers).spec_encoding() == old(headers).spec_encoding(),
{
    match body {
        RequestBody::Content(c) => {
            set_length(headers, c.len());
            c
        },
        RequestBody::Json(j) => {
            let bytes = crate::text::str_bytes(j.as_str());
            set_length(headers, bytes.len());
            set_type_default(headers, "application/json");
            bytes
        },
        RequestBody::Multipart(b, ct) => {
            set_length(headers, b.len());
            headers.set(owned("Content-Type"), ct);
            b
        },
        RequestBody::Form(f) => {
            let text = encode_form(&f);
            let bytes = crate::text::str_bytes(text.as_str());
            set_length(headers, bytes.len());
            set_type_default(headers, "application/x-www-form-urlencoded");
            bytes
        },
        RequestBody::EmptyFiles => Vec::new(),
        RequestBody::Nothing => {
            let m = to_upper(method);
            if str_eq(m.as_str(), "POST") || str_eq(m.as_str(), "PUT") || str_eq(m.as_str(), "PATCH") {
                headers.set(owned("Content-Length"), owned("0"));
            }
            Vec::new()
        },
    }
}

// ----- The whole request ---------------------------------------------------

/// A request ready to send.
pub struct PreparedRequest {
    /// The method, named uppercased.
    pub method: Method,
    /// The URL to request.
    pub url: URL,
    /// The headers to send.
    pub headers: Headers,
    /// The body to send.
    pub body: Vec<u8>,
}

/// The URL a request goes to: resolved against the base URL when it names
/// no scheme, with the serialised parameters appended as the query.
pub open spec fn request_target(base: Option<Seq<char>>, url: Seq<char>, query: Option<Seq<char>>) -> Result<Seq<char>, Seq<char>> {
    let resolved = match base {
        Some(b) => if find_sub(url, "://"@) is None {
            joined_url(b, url)
        } else {
            Ok(url)
        },
        None => Ok(url),
    };
    match resolved {
        Ok(t) => Ok(
            match query {
                Some(q) => if q.len() == 0 {
                    t
                } else if t.contains('?') {
                    t + "&"@ + q
                } else {
                    t + "?"@ + q
                },
                None => t,
            },
        ),
        Err(e) => Err(e),
    }
}

/// The headers after the chosen authentication.
pub open spec fn auth_items<C>(items: Items, action: AuthAction<C>, client_auth: Option<(String, String)>) -> Items {
    match action {
        AuthAction::UseClientDefault => match client_auth {
            Some(pair) => set_spec(items, "Authorization"@, spec_basic_auth(pair.0@, pair.1@)),
            None => items,
        },
        AuthAction::Basic(u, p) => set_spec(items, "Authorization"@, spec_basic_auth(u@, p@)),
        _ => items,
    }
}

/// The Host header a parsed URL gives: none only when it has no host.
pub open spec fn host_for(v: URLView, h: Option<Seq<char>>) -> bool {
    &&& match h {
        Some(x) => x == spec_host_header(spec_get_host_str(v), url_port(v.text), spec_get_scheme(v)),
        None => url_host(v.text).len() == 0,
    }
    &&& url_host(v.text).len() > 0 ==> h is Some
}

/// The headers sent: the defaults overridden by the client's headers and
/// then the request's, the authentication, the Host and Cookie headers, and
/// those that describe the body.
pub open spec fn request_items<C>(
    client_items: Items,
    request_pairs: Option<Items>,
    version: Seq<char>,
    action: AuthAction<C>,
    client_auth: Option<(String, String)>,
    host: Option<Seq<char>>,
    cookie: Seq<char>,
    method: Seq<char>,
    body: RequestBody,
) -> Items {
    let user = match request_pairs {
        Some(p) => update_spec(client_items, p),
        None => client_items,
    };
    let a = auth_items(set_all(default_header_items(version), user), action, client_auth);
    body_header_items(host_and_cookie_items(a, host, cookie), method, body)
}

/// The callable to hand the request to, for callable authentication.
pub open spec fn callable_of<C>(action: AuthAction<C>) -> Option<C> {
    match action {
        AuthAction::Callable(f) => Some(f),
        _ => None,
    }
}

/// Prepares a request from plain values: the URL resolved against the base
/// URL, the query appended and the result parsed; the method named
/// uppercased; the headers built from the defaults, the client's and the
/// request's headers, the authentication, Host, cookies and the body; the
/// body's bytes.  The error is the message of a URL that cannot be joined
/// or parsed.
pub fn prepare_request<C>(
    method: &str,
    url: &str,
    base_url: Option<&str>,
    query: Option<&str>,
    client_headers: &Headers,
    request_pairs: Option<&Vec<(String, String)>>,
    version: &str,
    auth: AuthAction<C>,
    client_auth: &Option<(String, String)>,
    cookies: &Cookies,
    request_cookies: Option<&Vec<(String, String)>>,
    body: RequestBody,
) -> (r: Result<(PreparedRequest, Option<C>), String>)
    ensures
        match request_target(crate::url_parts::opt_view(base_url), url@, crate::url_parts::opt_view(query)) {
            Err(e) => r matches Err(m) && m@ == e,
            Ok(t) => match spec_new_impl(Some(t), None, None, None, None, None, None, None) {
                Err(e) => r matches Err(m) && m@ == e,
                Ok(v) => r matches Ok((p, c)) && {
                    &&& p.url@ == v
                    &&& method_text(p.method) == str_upper(method@)
                    &&& (p.method is Extension <==> !standard_method(str_upper(method@)))
                    &&& p.body@ == body_bytes(body)
                    &&& c == callable_of(auth)
                    &&& exists|h: Option<Seq<char>>|
                        host_for(v, h) && p.headers.items() == request_items(
                            client_headers.items(),
                            match request_pairs {
                                Some(q) => Some(pairs_view(q@)),
                                None => None,
                            },
                            version@,
                            auth,
                            *client_auth,
                            h,
                            crate::cookies::cookie_header(
                                match request_cookies {
                                    Some(q) => crate::cookies::set_all_spec(
                                        cookies.entries(),
                                        pairs_view(q@),
                                    ),
                                    None => cookies.entries(),
                                },
                            ),
                            method@,
                            body,
                        )
                },
            },
        },
{
    let resolved = match resolve_url(base_url, url) {
        Ok(t) => t,
        Err(e) => return Err(e),
    };
    let target = match query {
        Some(q) => append_query(resolved.as_str(), q),
        None => resolved,
    };
    let mut request_headers = client_headers.copy();
    match request_pairs {
        Some(p) => request_headers.update(p),
        None => {},
    }
    let mut all = make_default_headers(Some(&request_headers), version);
    let callable = resolve_and_apply_auth(auth, client_auth, &mut all);
    let parsed = match URL::parse(target.as_str()) {
        Ok(u) => u,
        Err(e) => return Err(e),
    };
    let h = parsed.get_host();
    let host = host_header_value(
        match &h {
            Some(x) => Some(x.as_str()),
            None => None,
        },
        parsed.get_port(),
        parsed.get_scheme().as_str(),
    );
    let ghost hv: Option<Seq<char>> = match &host {
        Some(x) => Some(x@),
        None => None,
    };
    let mut jar = cookies.copy();
    match request_cookies {
        Some(q) => jar.update_pairs(q),
        None => {},
    }
    add_host_and_cookies(&mut all, host, &jar);
    let bytes = apply_body(&mut all, method, body);
    assert(host_for(parsed@, hv));
    let m = method_from_name(method);
    Ok((PreparedRequest { method: m, url: parsed, headers: all, body: bytes }, callable))
}

// ----- Choosing the body ---------------------------------------------------

/// The form fields given, as text pairs (none when no data was given).
pub open spec fn data_pairs(data: Option<Vec<(String, String)>>) -> Seq<(Seq<char>, Seq<char>)> {
    match data {
        Some(d) => pairs_view(d@),
        None => Seq::empty(),
    }
}

/// What a request's body arguments give when no raw content, JSON or files
/// decide it: form data when fields are given, else nothing.
pub open spec fn form_or_nothing(data: Option<Vec<(String, String)>>, r: RequestBody) -> bool {
    if data_pairs(data).len() > 0 {
        r matches RequestBody::Form(x) && pairs_view(x@) == data_pairs(data)
    } else {
        r is Nothing
    }
}

/// Chooses a request's body from its arguments, in this order: raw content;
/// else JSON text; else files, as a multipart body that also carries the
/// form fields (its boundary taken from a Content-Type that already names
/// one, else freshly drawn) when any file is given, and otherwise the form
/// fields alone (the headers left as they are when there are none); else
/// the form fields; else nothing.
pub fn request_body(
    content: Option<Vec<u8>>,
    json: Option<String>,
    files: Option<Vec<FilePart>>,
    data: Option<Vec<(String, String)>>,
    content_type: Option<&str>,
) -> (r: RequestBody)
    ensures
        match content {
            Some(c) => r matches RequestBody::Content(x) && x@ == c@,
            None => match json {
                Some(j) => r matches RequestBody::Json(x) && x@ == j@,
                None => match files {
                    Some(fs) => if fs@.len() > 0 {
                        exists|g: Seq<char>|
                            is_form_boundary(g) && {
                                let f = #[trigger] spec_multipart_framing(opt_str(content_type), g);
                                r matches RequestBody::Multipart(x, t) && x@ == spec_multipart(
                                    f.0,
                                    data_pairs(data),
                                    fs@,
                                ) && t@ == f.1
                            }
                    } else if data_pairs(data).len() > 0 {
                        r matches RequestBody::Form(x) && pairs_view(x@) == data_pairs(data)
                    } else {
                        r is EmptyFiles
                    },
                    None => form_or_nothing(data, r),
                },
            },
        },
{
    match content {
        Some(c) => return RequestBody::Content(c),
        None => {},
    }
    match json {
        Some(j) => return RequestBody::Json(j),
        None => {},
    }
    let fields = match data {
        Some(d) => d,
        None => Vec::new(),
    };
    assert(pairs_view(fields@) == data_pairs(data));
    match files {
        Some(fs) => {
            if fs.len() > 0 {
                let generated = generate_boundary();
                let (boundary, ct) = multipart_framing(content_type, generated.as_str());
                let bytes = build_multipart_body(boundary.as_str(), &fields, fs.as_slice());
                assert(is_form_boundary(generated@));
                assert(spec_multipart_framing(opt_str(content_type), generated@) == (boundary@, ct@));
                RequestBody::Multipart(bytes, ct)
            } else if fields.len() > 0 {
                RequestBody::Form(fields)
            } else {
                RequestBody::EmptyFiles
            }
        },
        None => {
            if fields.len() > 0 {
                RequestBody::Form(fields)
            } else {
                RequestBody::Nothing
            }
        },
    }
}

// ----- A request object built from its arguments --------------------------

/// A request as the `Request` class holds it.
pub struct BuiltRequest {
    /// The method, uppercased.
    pub method: String,
    /// The URL.
    pub url: URL,
    /// The headers.
    pub headers: Headers,
    /// The body, if one was given.
    pub content: Option<Vec<u8>>,
}

/// The value `get` reports for a header name: its values joined with ", ",
/// none when it has none.
pub open spec fn header_value(items: Items, name: Seq<char>) -> Option<Seq<char>> {
    let vals = crate::headers::values_of(items, str_lower(name));
    if vals.len() == 0 {
        None
    } else {
        Some(join(vals, ", "@))
    }
}

/// The headers after the cookies: a non-empty Cookie header replaces any.
pub open spec fn with_cookie(items: Items, cookies: Option<crate::cookies::Entries>) -> Items {
    match cookies {
        Some(es) => {
            let v = crate::cookies::cookie_header(es);
            if v.len() > 0 {
                set_spec(items, "Cookie"@, v)
            } else {
                items
            }
        },
        None => items,
    }
}

/// The body and headers after the body arguments, in the order a request
/// object applies them: raw content; JSON replaces it and adds
/// "application/json" unless a Content-Type is set; non-empty files replace
/// it with a multipart body carrying the form fields (boundary `g` unless the
/// Content-Type names one) and set the Content-Type; otherwise non-empty form
/// fields replace it with an urlencoded body and add its Content-Type unless
/// one is set.
pub open spec fn request_object_body(
    items: Items,
    content: Option<Seq<u8>>,
    json: Option<Seq<char>>,
    files: Option<Seq<FilePart>>,
    data: Seq<(Seq<char>, Seq<char>)>,
    g: Seq<char>,
) -> (Items, Option<Seq<u8>>) {
    let (h1, c1) = match json {
        Some(j) => (set_default(items, "Content-Type"@, "application/json"@), Some(enc(j))),
        None => (items, content),
    };
    match files {
        Some(fs) => if fs.len() > 0 {
            let f = spec_multipart_framing(header_value(h1, "content-type"@), g);
            (set_spec(h1, "Content-Type"@, f.1), Some(spec_multipart(f.0, data, fs)))
        } else {
            (h1, c1)
        },
        None => if data.len() > 0 {
            (
                set_default(h1, "Content-Type"@, "application/x-www-form-urlencoded"@),
                Some(enc(join(form_pieces(data), "&"@))),
            )
        } else {
            (h1, c1)
        },
    }
}

/// The headers after Content-Length and Host: the body's length, or "0" for
/// POST, PUT and PATCH without a body; then the bare host, when there is one.
pub open spec fn request_object_items(
    items: Items,
    content: Option<Seq<u8>>,
    method: Seq<char>,
    host: Option<Seq<char>>,
) -> Items {
    let m = str_upper(method);
    let h = match content {
        Some(c) => set_spec(items, "Content-Length"@, decimal(c.len())),
        None => if m == "POST"@ || m == "PUT"@ || m == "PATCH"@ {
            set_spec(items, "Content-Length"@, "0"@)
        } else {
            items
        },
    };
    match host {
        Some(x) => set_spec(h, "Host"@, x),
        None => h,
    }
}

/// The host a URL reports: its host lowercased without brackets, absent
/// only when it has none.
pub open spec fn bare_host_for(v: URLView, h: Option<Seq<char>>) -> bool {
    &&& match h {
        Some(x) => x == spec_get_host_str(v),
        None => url_host(v.text).len() == 0,
    }
    &&& url_host(v.text).len() > 0 ==> h is Some
}

/// The entries of an optional cookie jar.
pub open spec fn cookie_entries(cookies: Option<&Cookies>) -> Option<crate::cookies::Entries> {
    match cookies {
        Some(c) => Some(c.entries()),
        None => None,
    }
}

/// The bytes of an optional body.
pub open spec fn opt_bytes(b: Option<Vec<u8>>) -> Option<Seq<u8>> {
    match b {
        Some(x) => Some(x@),
        None => None,
    }
}

/// The text of an optional string.
pub open spec fn opt_string(t: Option<String>) -> Option<Seq<char>> {
    match t {
        Some(x) => Some(x@),
        None => None,
    }
}

/// The files of an optional list of files.
pub open spec fn opt_files(f: Option<Vec<FilePart>>) -> Option<Seq<FilePart>> {
    match f {
        Some(x) => Some(x@),
        None => None,
    }
}

fn set_header(headers: &mut Headers, key: &str, value: String)
    ensures
        final(headers).items() == set_spec(old(headers).items(), key@, value@),
        final(headers).spec_from_dict() == old(headers).spec_from_dict(),
        final(headers).spec_encoding() == old(headers).spec_encoding(),
{
    headers.set(owned(key), value);
}

/// Builds a request object from its arguments: the method uppercased; the
/// given headers, then the Cookie header, then the body (see
/// `request_object_body`), then Content-Length and the bare Host.
pub fn new_request(
    method: &str,
    url: URL,
    headers: Headers,
    cookies: Option<&Cookies>,
    content: Option<Vec<u8>>,
    json: Option<String>,
    files: Option<Vec<FilePart>>,
    data: Option<Vec<(String, String)>>,
) -> (r: BuiltRequest)
    ensures
        r.method@ == str_upper(method@),
        r.url@ == url@,
        exists|g: Seq<char>, h: Option<Seq<char>>|
            is_form_boundary(g) && #[trigger] bare_host_for(url@, h) && {
                let b = #[trigger] request_object_body(
                    with_cookie(headers.items(), cookie_entries(cookies)),
                    opt_bytes(content),
                    opt_string(json),
                    opt_files(files),
                    data_pairs(data),
                    g,
                );
                &&& match r.content {
                    Some(x) => b.1 == Some(x@),
                    None => b.1 is None,
                }
                &&& r.headers.items() == request_object_items(b.0, b.1, method@, h)
            },
{
    let ghost jv = opt_string(json);
    let ghost fv = opt_files(files);
    let ghost dv = data_pairs(data);
    let mut hs = headers;
    let ghost h0 = hs.items();
    match cookies {
        Some(c) => {
            let v = c.to_header_value();
            if v.unicode_len() > 0 {
                set_header(&mut hs, "Cookie", v);
            }
        },
        None => {},
    }
    let ghost h1 = hs.items();
    assert(h1 == with_cookie(headers.items(), cookie_entries(cookies)));
    let ghost c0 = opt_bytes(content);
    let mut body: Option<Vec<u8>> = content;
    let json_given = json.is_some();
    match json {
        Some(j) => {
            body = Some(crate::text::str_bytes(j.as_str()));
            if !hs.contains("content-type") {
                set_header(&mut hs, "Content-Type", owned("application/json"));
            }
        },
        None => {},
    }
    assert(hs.items() == (match jv {
        Some(j) => set_default(h1, "Content-Type"@, "application/json"@),
        None => h1,
    }));
    assert(opt_bytes(body) == (match jv {
        Some(j) => Some(enc(j)),
        None => c0,
    }));
    let fields = match data {
        Some(d) => d,
        None => Vec::new(),
    };
    assert(pairs_view(fields@) == dv);
    let generated = generate_boundary();
    let files_given = match &files {
        Some(fs) => fs.len() > 0,
        None => false,
    };
    match files {
        Some(fs) => {
            if fs.len() > 0 {
                let existing = hs.get("content-type", None);
                let (boundary, ct) = multipart_framing(
                    match &existing {
                        Some(e) => Some(e.as_str()),
                        None => None,
                    },
                    generated.as_str(),
                );
                body = Some(build_multipart_body(boundary.as_str(), &fields, fs.as_slice()));
                set_header(&mut hs, "Content-Type", ct);
            }
        },
        None => {
            if fields.len() > 0 {
                let text = encode_form(&fields);
                body = Some(crate::text::str_bytes(text.as_str()));
                if !hs.contains("content-type") {
                    set_header(&mut hs, "Content-Type", owned("application/x-www-form-urlencoded"));
                }
            }
        },
    }
    let ghost b = request_object_body(h1, c0, jv, fv, dv, generated@);
    assert(hs.items() == b.0 && opt_bytes(body) == b.1);
    let upper = to_upper(method);
    match &body {
        Some(b) => set_header(&mut hs, "Content-Length", decimal_string(b.len() as u64)),
        None => {
            if str_eq(upper.as_str(), "POST") || str_eq(upper.as_str(), "PUT") || str_eq(
                upper.as_str(),
                "PATCH",
            ) {
                set_header(&mut hs, "Content-Length", owned("0"));
            }
        },
    }
    let host = url.get_host();
    let ghost hv: Option<Seq<char>> = match &host {
        Some(x) => Some(x@),
        None => None,
    };
    match host {
        Some(x) => set_header(&mut hs, "Host", x),
        None => {},
    }
    assert(is_form_boundary(generated@));
    assert(bare_host_for(url@, hv));
    assert(hs.items() == request_object_items(b.0, b.1, method@, hv));
    BuiltRequest { method: upper, url, headers: hs, content: body }
}

} // verus!
