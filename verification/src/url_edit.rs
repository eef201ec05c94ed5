//! Deriving one `URL` from another: joining a reference onto it, replacing
//! its components, and changing its query parameters.
use crate::queryparams::{spec_parse_query, spec_to_query_string, without, Params, QueryParams};
use crate::query_law::{law_query_string_round_trip, lemma_query_string_query_safe};
use crate::text::{chars_of, ends_with, find_char, owned, push_str, str_ends_with, string_of};
use crate::url_build::{lossy_text, utf8_lossy};
use crate::url_checks::{all_digits, rfind_char, rfind_in};
use crate::url_model::{or_empty, strip_brackets, strip_brackets_str, with_text, URLView, URL};
use crate::url_parts::{
    query_safe_text, setter_fits, url_fragment, url_joined, url_path, url_query, url_scheme, url_with_fragment,
    url_with_host, url_with_password, url_with_path, url_with_port, url_with_query, url_with_scheme,
    url_with_username, UrlParts,
};
use crate::url_text::{dec_value, encode_userinfo, is_digit, spec_encode_userinfo};
use vstd::prelude::*;
use vstd::string::StrSliceExecFns;

verus! {

/// A derived URL, or the message of the error.
pub open spec fn derived(r: Result<URL, String>, s: Result<URLView, Seq<char>>) -> bool {
    match s {
        Ok(v) => r matches Ok(u) && u@ == v,
        Err(m) => r matches Err(e) && e@ == m,
    }
}

fn fits(p: &UrlParts, arg_len: usize) -> (r: bool)
    ensures
        r == setter_fits(p@, arg_len as nat),
{
    crate::url_parts::setter_room(p.as_str(), arg_len)
}

fn too_long() -> (r: Result<URL, String>)
    ensures
        r matches Err(e) && e@ == "URL too long"@,
{
    Err(owned("URL too long"))
}

fn with_prefix(prefix: &str, e: &str) -> (r: String)
    ensures
        r@ == prefix@ + e@,
{
    let mut m = owned(prefix);
    push_str(&mut m, e);
    m
}

// ----- joining ---------------------------------------------------------------

/// A reference joined onto the URL, as a plain URL; or the error.
pub open spec fn spec_join_url(v: URLView, reference: Seq<char>) -> Result<URLView, Seq<char>> {
    match url_joined(v.text, reference) {
        Ok(t) => Ok(
            URLView {
                text: t,
                fragment: or_empty(url_fragment(t)),
                has_trailing_slash: true,
                empty_scheme: false,
                empty_host: false,
                original_host: None,
                relative_path: None,
                original_raw_path: None,
            },
        ),
        Err(e) => Err("Invalid URL for join: "@ + e),
    }
}

/// A reference joined onto the URL: the root slash kept when the reference
/// ends with one, and a relative URL staying relative.
pub open spec fn spec_join(v: URLView, reference: Seq<char>) -> Result<URLView, Seq<char>> {
    match url_joined(v.text, reference) {
        Ok(t) => Ok(
            URLView {
                text: t,
                fragment: or_empty(url_fragment(t)),
                has_trailing_slash: ends_with(reference, "/"@),
                empty_scheme: false,
                empty_host: false,
                original_host: None,
                relative_path: if v.relative_path is Some || url_scheme(v.text) == "relative"@ {
                    Some(url_path(t))
                } else {
                    None
                },
                original_raw_path: None,
            },
        ),
        Err(e) => Err("Invalid URL for join: "@ + e),
    }
}

impl URL {
    /// Joins a reference onto this URL.
    pub fn join_url(&self, url: &str) -> (r: Result<URL, String>)
        ensures
            derived(r, spec_join_url(self@, url@)),
    {
        match self.inner().join(url) {
            Ok(joined) => Ok(URL::from_url(joined)),
            Err(e) => Err(with_prefix("Invalid URL for join: ", e.as_str())),
        }
    }

    /// Joins a reference onto this URL, keeping a relative URL relative.
    pub fn join(&self, url: &str) -> (r: Result<URL, String>)
        ensures
            derived(r, spec_join(self@, url@)),
    {
        match self.inner().join(url) {
            Ok(joined) => {
                let input_has_slash = str_ends_with(url, "/");
                let has_slash = if crate::text::str_eq(joined.path(), "/") {
                    input_has_slash || crate::text::str_eq(url, "/")
                } else {
                    input_has_slash
                };
                proof {
                    reveal_strlit("/");
                    if url@ == "/"@ {
                        assert(url@.skip(url@.len() - 1) =~= "/"@);
                    }
                }
                let rel_path = if self.relative_path_is_some() || crate::text::str_eq(
                    self.inner().scheme(),
                    "relative",
                ) {
                    Some(owned(joined.path()))
                } else {
                    None
                };
                let frag = match joined.fragment() {
                    Some(f) => owned(f),
                    None => String::new(),
                };
                Ok(URL::assemble(joined, frag, has_slash, false, false, None, rel_path, None))
            },
            Err(e) => Err(with_prefix("Invalid URL for join: ", e.as_str())),
        }
    }
}

// ----- replacing components ----------------------------------------------------

/// A component to replace, with its new value.
pub enum UrlChange {
    Scheme(String),
    Host(String),
    Port(Option<i64>),
    Path(String),
    Query(Vec<u8>),
    RawPath(Vec<u8>),
    Fragment(String),
    Netloc(Vec<u8>),
    Username(String),
    Password(String),
}

/// What `u16::from_str` reads: one optional '+', then decimal digits of a
/// value below 65536.
pub open spec fn parse_u16(s: Seq<char>) -> Option<u16> {
    let d = u16_digits(s);
    if d.len() > 0 && all_digits(d) && dec_value(d) <= 65535 {
        Some(dec_value(d) as u16)
    } else {
        None
    }
}

/// The digits `u16::from_str` reads: after one optional '+'.
pub open spec fn u16_digits(s: Seq<char>) -> Seq<char> {
    if s.len() > 0 && s[0] == '+' {
        s.skip(1)
    } else {
        s
    }
}

fn parse_port(cs: &[char], from: usize, to: usize) -> (r: Option<u16>)
    requires
        from <= to <= cs@.len(),
    ensures
        r == parse_u16(cs@.subrange(from as int, to as int)),
{
    let ghost p = cs@.subrange(from as int, to as int);
    let start = if from < to && cs[from] == '+' {
        from + 1
    } else {
        from
    };
    let ghost d = u16_digits(p);
    assert(d =~= cs@.subrange(start as int, to as int));
    if start == to {
        return None;
    }
    let mut v: u32 = 0;
    let mut i = start;
    while i < to
        invariant
            start <= i <= to <= cs@.len(),
            d == cs@.subrange(start as int, to as int),
            d == u16_digits(cs@.subrange(from as int, to as int)),
            forall|j: int| 0 <= j < i - start ==> is_digit(#[trigger] d[j]),
            v as nat == if dec_value(d.take(i - start)) < 65536 {
                dec_value(d.take(i - start))
            } else {
                65536
            },
        decreases to - i,
    {
        let c = cs[i];
        if !('0' <= c && c <= '9') {
            assert(!is_digit(d[i - start]));
            assert(!all_digits(d));
            return None;
        }
        let dig = (c as u32) - ('0' as u32);
        let ghost prev = dec_value(d.take(i - start));
        assert(d.take(i - start + 1).drop_last() =~= d.take(i - start));
        assert(dec_value(d.take(i - start + 1)) == prev * 10 + dig);
        v = if v >= 65536 {
            65536
        } else {
            let w = v * 10 + dig;
            if w >= 65536 {
                65536
            } else {
                w
            }
        };
        i = i + 1;
    }
    assert(d.take(d.len() as int) =~= d);
    if v <= 65535 {
        Some(v as u16)
    } else {
        None
    }
}

/// The host to set, and whether it is IPv6: without brackets, and put back
/// in brackets when it holds ':' and no '/'.
pub open spec fn host_to_set(h: Seq<char>) -> (Seq<char>, bool) {
    let hc = strip_brackets(h);
    let is_ipv6 = hc.contains(':') && !hc.contains('/');
    (if is_ipv6 {
        "["@ + hc + "]"@
    } else {
        hc
    }, is_ipv6)
}

/// Setting a host on the URL's text.
pub open spec fn set_host_text(t: Seq<char>, host: Seq<char>) -> Result<Seq<char>, Seq<char>> {
    if !setter_fits(t, host.len()) {
        Err("URL too long"@)
    } else {
        match url_with_host(t, host) {
            Ok(t2) => Ok(t2),
            Err(e) => Err("Invalid host: "@ + e),
        }
    }
}

/// Setting a port on the URL's text.
pub open spec fn set_port_text(t: Seq<char>, port: Option<u16>) -> Result<Seq<char>, Seq<char>> {
    if !setter_fits(t, 0) {
        Err("URL too long"@)
    } else {
        match url_with_port(t, port) {
            Some(t2) => Ok(t2),
            None => Err("Invalid port"@),
        }
    }
}

/// Setting a path on the URL's text.
pub open spec fn set_path_text(t: Seq<char>, path: Seq<char>) -> Result<Seq<char>, Seq<char>> {
    if !setter_fits(t, path.len()) {
        Err("URL too long"@)
    } else {
        Ok(url_with_path(t, path))
    }
}

/// Setting (or, with `None`, removing) a query on the URL's text.
pub open spec fn set_query_text(t: Seq<char>, query: Option<Seq<char>>) -> Result<Seq<char>, Seq<char>> {
    if !setter_fits(t, or_empty(query).len()) {
        Err("URL too long"@)
    } else {
        Ok(url_with_query(t, query))
    }
}

/// A netloc set on the URL's text: "host:port" when the part after the last
/// ':' is a port number, else all of it as the host.
pub open spec fn set_netloc_text(t: Seq<char>, ns: Seq<char>) -> Result<Seq<char>, Seq<char>> {
    match rfind_char(ns, ':') {
        Some(i) => match parse_u16(ns.skip(i + 1)) {
            Some(port) => match set_host_text(t, ns.take(i)) {
                Ok(t2) => set_port_text(t2, Some(port)),
                Err(e) => Err(e),
            },
            None => set_host_text(t, ns),
        },
        None => set_host_text(t, ns),
    }
}

/// The text after a change, kept in a URL otherwise unchanged.
pub open spec fn text_changed(v: URLView, r: Result<Seq<char>, Seq<char>>) -> Result<URLView, Seq<char>> {
    match r {
        Ok(t) => Ok(with_text(v, t)),
        Err(e) => Err(e),
    }
}

/// One component replaced.
pub open spec fn apply_change(v: URLView, c: UrlChange) -> Result<URLView, Seq<char>> {
    let t = v.text;
    match c {
        UrlChange::Scheme(sc) => if !setter_fits(t, sc@.len()) {
            Err("URL too long"@)
        } else {
            match url_with_scheme(t, sc@) {
                Some(t2) => Ok(with_text(v, t2)),
                None => Err("Invalid scheme"@),
            }
        },
        UrlChange::Host(h) => {
            let (to_set, is_ipv6) = host_to_set(h@);
            match set_host_text(t, to_set) {
                Ok(t2) => Ok(
                    URLView {
                        original_host: if is_ipv6 || !vstd::utf8::is_ascii_chars(h@) {
                            Some(strip_brackets(h@))
                        } else {
                            None
                        },
                        ..with_text(v, t2)
                    },
                ),
                Err(e) => Err(e),
            }
        },
        UrlChange::Port(p) => match p {
            None => text_changed(v, set_port_text(t, None)),
            Some(n) => if n < 0 {
                Err("Invalid port: negative values not allowed"@)
            } else {
                text_changed(v, set_port_text(t, Some((n % 65536) as u16)))
            },
        },
        UrlChange::Path(p) => text_changed(v, set_path_text(t, p@)),
        UrlChange::Query(q) => {
            let qs = utf8_lossy(q@);
            text_changed(
                v,
                set_query_text(
                    t,
                    if qs.len() == 0 {
                        None
                    } else {
                        Some(qs)
                    },
                ),
            )
        },
        UrlChange::RawPath(r) => {
            let raw = utf8_lossy(r@);
            let (path, query) = match find_char(raw, '?') {
                Some(i) => (raw.take(i), Some(raw.skip(i + 1))),
                None => (raw, None),
            };
            match set_path_text(t, path) {
                Ok(t2) => text_changed(v, set_query_text(t2, query)),
                Err(e) => Err(e),
            }
        },
        UrlChange::Fragment(f) => if !setter_fits(t, f@.len()) {
            Err("URL too long"@)
        } else {
            Ok(
                URLView {
                    fragment: f@,
                    ..with_text(
                        v,
                        url_with_fragment(
                            t,
                            if f@.len() == 0 {
                                None
                            } else {
                                Some(f@)
                            },
                        ),
                    )
                },
            )
        },
        UrlChange::Netloc(n) => text_changed(v, set_netloc_text(t, utf8_lossy(n@))),
        UrlChange::Username(u) => {
            let e = spec_encode_userinfo(u@);
            if !setter_fits(t, e.len()) {
                Err("URL too long"@)
            } else {
                match url_with_username(t, e) {
                    Some(t2) => Ok(with_text(v, t2)),
                    None => Err("Cannot set username"@),
                }
            }
        },
        UrlChange::Password(p) => {
            let e = spec_encode_userinfo(p@);
            if !setter_fits(t, e.len()) {
                Err("URL too long"@)
            } else {
                match url_with_password(t, Some(e)) {
                    Some(t2) => Ok(with_text(v, t2)),
                    None => Err("Cannot set password"@),
                }
            }
        },
    }
}

/// The changes applied in order, stopping at the first error.
pub open spec fn spec_copy_with(v: URLView, changes: Seq<UrlChange>) -> Result<URLView, Seq<char>>
    decreases changes.len(),
{
    if changes.len() == 0 {
        Ok(v)
    } else {
        match spec_copy_with(v, changes.drop_last()) {
            Ok(w) => apply_change(w, changes.last()),
            Err(e) => Err(e),
        }
    }
}

fn set_host_on(p: &UrlParts, host: &str) -> (r: Result<UrlParts, String>)
    ensures
        match set_host_text(p@, host@) {
            Ok(t) => r matches Ok(q) && q@ == t,
            Err(e) => r matches Err(m) && m@ == e,
        },
{
    if !fits(p, host.unicode_len()) {
        return Err(owned("URL too long"));
    }
    let mut q = p.copy();
    match q.set_host(host) {
        Ok(()) => Ok(q),
        Err(e) => Err(with_prefix("Invalid host: ", e.as_str())),
    }
}

fn set_port_on(p: &UrlParts, port: Option<u16>) -> (r: Result<UrlParts, String>)
    ensures
        match set_port_text(p@, port) {
            Ok(t) => r matches Ok(q) && q@ == t,
            Err(e) => r matches Err(m) && m@ == e,
        },
{
    if !fits(p, 0) {
        return Err(owned("URL too long"));
    }
    let mut q = p.copy();
    if q.set_port(port) {
        Ok(q)
    } else {
        Err(owned("Invalid port"))
    }
}

fn set_path_on(p: &UrlParts, path: &str) -> (r: Result<UrlParts, String>)
    ensures
        match set_path_text(p@, path@) {
            Ok(t) => r matches Ok(q) && q@ == t,
            Err(e) => r matches Err(m) && m@ == e,
        },
{
    if !fits(p, path.unicode_len()) {
        return Err(owned("URL too long"));
    }
    let mut q = p.copy();
    q.set_path(path);
    Ok(q)
}

fn set_query_on(p: &UrlParts, query: Option<&str>) -> (r: Result<UrlParts, String>)
    ensures
        match set_query_text(p@, crate::url_parts::opt_view(query)) {
            Ok(t) => r matches Ok(q) && q@ == t,
            Err(e) => r matches Err(m) && m@ == e,
        },
        r matches Ok(q) ==> match query {
            Some(s) => query_safe_text(s@) ==> url_query(q@) == Some(s@),
            None => url_query(q@) is None,
        },
{
    let n = match query {
        Some(s) => s.unicode_len(),
        None => 0,
    };
    if !fits(p, n) {
        return Err(owned("URL too long"));
    }
    let mut q = p.copy();
    q.set_query(query);
    Ok(q)
}

fn set_netloc_on(p: &UrlParts, ns: &str) -> (r: Result<UrlParts, String>)
    ensures
        match set_netloc_text(p@, ns@) {
            Ok(t) => r matches Ok(q) && q@ == t,
            Err(e) => r matches Err(m) && m@ == e,
        },
{
    let cs = chars_of(ns);
    let n = cs.len();
    assert(cs@.subrange(0, n as int) =~= ns@);
    match rfind_in(cs.as_slice(), ':', 0, n) {
        Some(i) => {
            assert(cs@.subrange(i + 1, n as int) =~= ns@.skip(i + 1));
            match parse_port(cs.as_slice(), i + 1, n) {
                Some(port) => {
                    let host = string_of(cs.as_slice(), 0, i);
                    assert(host@ =~= ns@.take(i as int));
                    match set_host_on(p, host.as_str()) {
                        Ok(q) => set_port_on(&q, Some(port)),
                        Err(e) => Err(e),
                    }
                },
                None => set_host_on(p, ns),
            }
        },
        None => set_host_on(p, ns),
    }
}

fn changed_text(u: URL, r: Result<UrlParts, String>) -> (out: Result<URL, String>)
    ensures
        derived(
            out,
            text_changed(
                u@,
                match r {
                    Ok(q) => Ok(q@),
                    Err(e) => Err(e@),
                },
            ),
        ),
{
    match r {
        Ok(q) => Ok(u.replaced(q)),
        Err(e) => Err(e),
    }
}

#[verifier::rlimit(40)]
fn apply_one(u: URL, c: &UrlChange) -> (r: Result<URL, String>)
    ensures
        derived(r, apply_change(u@, *c)),
{
    match c {
        UrlChange::Scheme(sc) => {
            if !fits(u.inner(), sc.as_str().unicode_len()) {
                return too_long();
            }
            let mut q = u.inner().copy();
            if q.set_scheme(sc.as_str()) {
                Ok(u.replaced(q))
            } else {
                Err(owned("Invalid scheme"))
            }
        },
        UrlChange::Host(h) => {
            let hc = strip_brackets_str(h.as_str());
            let is_ipv6 = crate::text::contains_char(hc.as_str(), ':') && !crate::text::contains_char(
                hc.as_str(),
                '/',
            );
            let to_set = if is_ipv6 {
                let mut b = owned("[");
                push_str(&mut b, hc.as_str());
                push_str(&mut b, "]");
                b
            } else {
                hc.clone()
            };
            assert(to_set@ == host_to_set(h@).0);
            match set_host_on(u.inner(), to_set.as_str()) {
                Ok(q) => {
                    let oh = if is_ipv6 || !h.as_str().is_ascii() {
                        Some(hc)
                    } else {
                        None
                    };
                    Ok(u.replaced(q).with_original_host(oh))
                },
                Err(e) => Err(e),
            }
        },
        UrlChange::Port(p) => match p {
            None => {
                let r = set_port_on(u.inner(), None);
                changed_text(u, r)
            },
            Some(n) => {
                if *n < 0 {
                    return Err(owned("Invalid port: negative values not allowed"));
                }
                let port = (*n % 65536) as u16;
                let r = set_port_on(u.inner(), Some(port));
                changed_text(u, r)
            },
        },
        UrlChange::Path(p) => {
            let r = set_path_on(u.inner(), p.as_str());
            changed_text(u, r)
        },
        UrlChange::Query(q) => {
            let qs = lossy_text(q.as_slice());
            let r = if qs.as_str().unicode_len() == 0 {
                set_query_on(u.inner(), None)
            } else {
                set_query_on(u.inner(), Some(qs.as_str()))
            };
            changed_text(u, r)
        },
        UrlChange::RawPath(rp) => {
            let raw = lossy_text(rp.as_slice());
            let cs = chars_of(raw.as_str());
            let n = cs.len();
            let i = crate::text::find_from(cs.as_slice(), '?', 0, n);
            assert(cs@.subrange(0, n as int) =~= raw@);
            if i < n {
                let path = string_of(cs.as_slice(), 0, i);
                let query = string_of(cs.as_slice(), i + 1, n);
                assert(path@ =~= raw@.take(i as int));
                assert(query@ =~= raw@.skip(i + 1));
                match set_path_on(u.inner(), path.as_str()) {
                    Ok(t2) => {
                        let r = set_query_on(&t2, Some(query.as_str()));
                        changed_text(u, r)
                    },
                    Err(e) => Err(e),
                }
            } else {
                match set_path_on(u.inner(), raw.as_str()) {
                    Ok(t2) => {
                        let r = set_query_on(&t2, None);
                        changed_text(u, r)
                    },
                    Err(e) => Err(e),
                }
            }
        },
        UrlChange::Fragment(f) => {
            if !fits(u.inner(), f.as_str().unicode_len()) {
                return too_long();
            }
            let mut q = u.inner().copy();
            if f.as_str().unicode_len() == 0 {
                q.set_fragment(None);
            } else {
                q.set_fragment(Some(f.as_str()));
            }
            Ok(u.replaced(q).with_fragment(f.clone()))
        },
        UrlChange::Netloc(nb) => {
            let ns = lossy_text(nb.as_slice());
            let r = set_netloc_on(u.inner(), ns.as_str());
            changed_text(u, r)
        },
        UrlChange::Username(name) => {
            let e = encode_userinfo(name.as_str());
            if !fits(u.inner(), e.as_str().unicode_len()) {
                return too_long();
            }
            let mut q = u.inner().copy();
            if q.set_username(e.as_str()) {
                Ok(u.replaced(q))
            } else {
                Err(owned("Cannot set username"))
            }
        },
        UrlChange::Password(pw) => {
            let e = encode_userinfo(pw.as_str());
            if !fits(u.inner(), e.as_str().unicode_len()) {
                return too_long();
            }
            let mut q = u.inner().copy();
            if q.set_password(Some(e.as_str())) {
                Ok(u.replaced(q))
            } else {
                Err(owned("Cannot set password"))
            }
        },
    }
}

impl URL {
    /// A copy of this URL with the given components replaced, in order.
    pub fn copy_with(&self, changes: &Vec<UrlChange>) -> (r: Result<URL, String>)
        ensures
            derived(r, spec_copy_with(self@, changes@)),
    {
        let mut u = self.copy();
        let mut i: usize = 0;
        assert(changes@.take(0) =~= Seq::<UrlChange>::empty());
        while i < changes.len()
            invariant
                i <= changes@.len(),
                spec_copy_with(self@, changes@.take(i as int)) == Ok::<URLView, Seq<char>>(u@),
            decreases changes.len() - i,
        {
            assert(changes@.take(i + 1).drop_last() =~= changes@.take(i as int));
            match apply_one(u, &changes[i]) {
                Ok(next) => {
                    u = next;
                },
                Err(e) => {
                    proof {
                        lemma_copy_with_stops(self@, changes@, i as int);
                    }
                    return Err(e);
                },
            }
            i = i + 1;
        }
        assert(changes@.take(changes@.len() as int) =~= changes@);
        Ok(u)
    }
}

/// Once a change fails, every longer list of changes fails the same way.
pub proof fn lemma_copy_with_stops(v: URLView, changes: Seq<UrlChange>, i: int)
    requires
        0 <= i < changes.len(),
        spec_copy_with(v, changes.take(i + 1)) is Err,
    ensures
        spec_copy_with(v, changes) == spec_copy_with(v, changes.take(i + 1)),
    decreases changes.len() - i,
{
    if i + 1 < changes.len() {
        assert(changes.drop_last().take(i + 1) =~= changes.take(i + 1));
        lemma_copy_with_stops(v, changes.drop_last(), i);
    } else {
        assert(changes.take(i + 1) =~= changes);
    }
}

// ----- query parameters ----------------------------------------------------------

/// The URL with its query replaced by the given parameters.
pub open spec fn with_params_query(v: URLView, items: Params, drop_empty: bool) -> Result<URLView, Seq<char>> {
    let qs = spec_to_query_string(items);
    text_changed(
        v,
        set_query_text(
            v.text,
            if drop_empty && qs.len() == 0 {
                None
            } else {
                Some(qs)
            },
        ),
    )
}

/// The URL's query parameters.
pub open spec fn url_params(v: URLView) -> Params {
    spec_parse_query(or_empty(url_query(v.text)))
}

fn with_query_of(u: &URL, params: &QueryParams, drop_empty: bool) -> (r: Result<URL, String>)
    ensures
        derived(r, with_params_query(u@, params.items(), drop_empty)),
        r matches Ok(w) ==> url_params(w@) == params.items(),
{
    let qs = params.to_query_string();
    proof {
        lemma_query_string_query_safe(params.items());
        law_query_string_round_trip(params.items());
        reveal_strlit("");
        assert(or_empty(None::<Seq<char>>) =~= ""@);
    }
    let res = if drop_empty && qs.as_str().unicode_len() == 0 {
        set_query_on(u.inner(), None)
    } else {
        set_query_on(u.inner(), Some(qs.as_str()))
    };
    changed_text(u.copy(), res)
}

impl URL {
    /// A copy with the parameter set (its other values removed).
    pub fn copy_set_param(&self, key: &str, value: &str) -> (r: Result<URL, String>)
        ensures
            derived(r, with_params_query(self@, without(url_params(self@), key@).push((key@, value@)), false)),
            r matches Ok(w) ==> url_params(w@) == without(url_params(self@), key@).push((key@, value@)),
    {
        let mut params = self.params();
        params.set(key, value);
        with_query_of(self, &params, false)
    }

    /// A copy with the parameter added.
    pub fn copy_add_param(&self, key: &str, value: &str) -> (r: Result<URL, String>)
        ensures
            derived(r, with_params_query(self@, url_params(self@).push((key@, value@)), false)),
            r matches Ok(w) ==> url_params(w@) == url_params(self@).push((key@, value@)),
    {
        let mut params = self.params();
        params.add(key, value);
        with_query_of(self, &params, false)
    }

    /// A copy without the parameter; the query is removed when none are
    /// left.
    pub fn copy_remove_param(&self, key: &str) -> (r: Result<URL, String>)
        ensures
            derived(r, with_params_query(self@, without(url_params(self@), key@), true)),
            r matches Ok(w) ==> url_params(w@) == without(url_params(self@), key@),
    {
        let mut params = self.params();
        params.remove(key);
        with_query_of(self, &params, true)
    }

    /// A copy with other parameters appended.
    pub fn copy_merge_params(&self, other: &QueryParams) -> (r: Result<URL, String>)
        ensures
            derived(r, with_params_query(self@, url_params(self@) + other.items(), false)),
            r matches Ok(w) ==> url_params(w@) == url_params(self@) + other.items(),
    {
        let mut params = self.params();
        params.merge(other);
        with_query_of(self, &params, false)
    }
}

} // verus!
