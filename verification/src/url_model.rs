//! The `URL` type: a URL parsed by the url crate, together with what the
//! library remembers of how it was written (a decoded fragment, whether the
//! root path was written with its slash, an empty scheme or host, the host
//! and raw path as written, a relative path), and the views of it that
//! callers read: its text, host, netloc, raw path and so on.
use crate::queryparams::{decode_or_keep, decoded_or_raw, spec_parse_query, QueryParams};
use crate::text::{
    chars_of, contains_char, decimal, ends_with, find_char, find_sub, owned, push_decimal, push_str, str_eq, string_of, str_lower, to_lower,
};
use crate::url_parts::{
    url_fragment, url_host, url_password, url_path, url_port, url_query, url_scheme, url_username,
    UrlParts,
};
use vstd::prelude::*;
use vstd::string::StrSliceExecFns;

verus! {

/// A URL.
pub struct URL {
    inner: UrlParts,
    fragment: String,
    has_trailing_slash: bool,
    empty_scheme: bool,
    empty_host: bool,
    original_host: Option<String>,
    relative_path: Option<String>,
    original_raw_path: Option<String>,
}

/// What a `URL` holds, as plain values.
pub struct URLView {
    /// The url crate's serialisation of the parsed URL.
    pub text: Seq<char>,
    /// The fragment, percent-decoded.
    pub fragment: Seq<char>,
    /// Whether a root path was written with its slash.
    pub has_trailing_slash: bool,
    /// Written without a scheme ("://host").
    pub empty_scheme: bool,
    /// Written without a host ("scheme://").
    pub empty_host: bool,
    /// The host as written, for IPv6, IDNA and space-holding hosts.
    pub original_host: Option<Seq<char>>,
    /// The path of a relative URL.
    pub relative_path: Option<Seq<char>>,
    /// The path and query as written.
    pub original_raw_path: Option<Seq<char>>,
}

/// The view of an optional string.
pub open spec fn opt_seq(o: Option<String>) -> Option<Seq<char>> {
    match o {
        Some(s) => Some(s@),
        None => None,
    }
}

/// The text of an optional string, empty for `None`.
pub open spec fn or_empty(o: Option<Seq<char>>) -> Seq<char> {
    match o {
        Some(s) => s,
        None => Seq::empty(),
    }
}

/// A text without the brackets round it, when it starts with '[' and ends
/// with ']'.
pub open spec fn strip_brackets(s: Seq<char>) -> Seq<char> {
    if s.len() >= 2 && s[0] == '[' && s.last() == ']' {
        s.subrange(1, s.len() - 1)
    } else {
        s
    }
}

/// `prefix` and the text when there is one; nothing otherwise.
pub open spec fn prefixed(prefix: Seq<char>, o: Option<Seq<char>>) -> Seq<char> {
    match o {
        Some(s) => prefix + s,
        None => Seq::empty(),
    }
}

/// ":" and the port, when there is one.
pub open spec fn port_suffix(p: Option<u16>) -> Seq<char> {
    match p {
        Some(n) => ":"@ + decimal(n as nat),
        None => Seq::empty(),
    }
}

/// The text with the character at `i` removed.
pub open spec fn remove_at(s: Seq<char>, i: int) -> Seq<char> {
    s.take(i) + s.skip(i + 1)
}

/// The text with every trailing '/' removed.
pub open spec fn trim_end_slashes(s: Seq<char>) -> Seq<char>
    decreases s.len(),
{
    if s.len() > 0 && s.last() == '/' {
        trim_end_slashes(s.drop_last())
    } else {
        s
    }
}

/// The same URL with another text.
pub open spec fn with_text(v: URLView, text: Seq<char>) -> URLView {
    URLView { text, ..v }
}

// ----- what the url crate reports, and what the URL shows ------------------

/// The scheme, empty for the placeholder scheme of relative URLs.
pub open spec fn spec_get_scheme(v: URLView) -> Seq<char> {
    if url_scheme(v.text) == "relative"@ {
        Seq::empty()
    } else {
        url_scheme(v.text)
    }
}


/// The host without IPv6 brackets, lowercased; empty when there is none.
pub open spec fn spec_get_host_str(v: URLView) -> Seq<char> {
    str_lower(strip_brackets(url_host(v.text)))
}

/// The user name, percent-decoded.
pub open spec fn spec_get_username(v: URLView) -> Seq<char> {
    decoded_or_raw(url_username(v.text))
}

/// The password, percent-decoded.
pub open spec fn spec_get_password(v: URLView) -> Option<Seq<char>> {
    match url_password(v.text) {
        Some(p) => Some(decoded_or_raw(p)),
        None => None,
    }
}

/// The scheme a caller sees: empty for a URL written without one.
pub open spec fn spec_scheme(v: URLView) -> Seq<char> {
    if v.empty_scheme {
        Seq::empty()
    } else {
        spec_get_scheme(v)
    }
}

/// The host a caller sees: empty for a URL written without one, else the
/// host as written (or as parsed), without brackets, lowercased.
pub open spec fn spec_host(v: URLView) -> Seq<char> {
    if v.empty_host {
        Seq::empty()
    } else {
        match v.original_host {
            Some(o) => str_lower(strip_brackets(o)),
            None => spec_get_host_str(v),
        }
    }
}

/// The path, percent-decoded: a relative URL's own path, else the parsed
/// one.
pub open spec fn spec_path(v: URLView) -> Seq<char> {
    match v.relative_path {
        Some(r) => decoded_or_raw(r),
        None => decoded_or_raw(url_path(v.text)),
    }
}

/// The query: as written when the raw path was kept, else as parsed.
pub open spec fn spec_query(v: URLView) -> Seq<char> {
    match v.original_raw_path {
        Some(r) => match find_char(r, '?') {
            Some(p) => r.skip(p + 1),
            None => Seq::empty(),
        },
        None => or_empty(url_query(v.text)),
    }
}

/// The path and query: as written when kept, else the parsed path with "?"
/// and the query when there is one.
pub open spec fn spec_raw_path(v: URLView) -> Seq<char> {
    match v.original_raw_path {
        Some(r) => r,
        None => url_path(v.text) + prefixed("?"@, url_query(v.text)),
    }
}

/// The host as sent: an IPv6 or percent-encoded host as written, else the
/// parsed host without brackets.
pub open spec fn spec_raw_host(v: URLView) -> Seq<char> {
    match v.original_host {
        Some(o) => if o.contains(':') || o.contains('%') {
            o
        } else {
            strip_brackets(url_host(v.text))
        },
        None => strip_brackets(url_host(v.text)),
    }
}

/// "user", "user:password", or empty.
pub open spec fn spec_userinfo(v: URLView) -> Seq<char> {
    let u = url_username(v.text);
    let p = or_empty(url_password(v.text));
    if u.len() == 0 && p.len() == 0 {
        Seq::empty()
    } else if p.len() == 0 {
        u
    } else {
        u + ":"@ + p
    }
}

/// The host for the netloc: an IPv6 host as written in brackets, a
/// percent-encoded one as written, else the parsed host.
pub open spec fn netloc_host(v: URLView) -> Seq<char> {
    let raw = url_host(v.text);
    match v.original_host {
        Some(o) => if o.contains(':') {
            "["@ + o + "]"@
        } else if o.contains('%') {
            o
        } else {
            raw
        },
        None => raw,
    }
}

/// "userinfo@host:port", each part only when present.
pub open spec fn spec_netloc(v: URLView) -> Seq<char> {
    let nl = netloc_host(v) + port_suffix(url_port(v.text));
    let ui = spec_userinfo(v);
    if ui.len() > 0 {
        ui + "@"@ + nl
    } else {
        nl
    }
}

/// The fragment a URL's text ends with: "#" and the decoded fragment, when
/// it is not empty.
pub open spec fn fragment_suffix(v: URLView) -> Seq<char> {
    if v.fragment.len() > 0 {
        "#"@ + v.fragment
    } else {
        Seq::empty()
    }
}

/// The URL rebuilt around a host as written (IPv6 or percent-encoded).
pub open spec fn rebuilt_text(v: URLView, host: Seq<char>) -> Seq<char> {
    let t = v.text;
    let scheme_part = if url_scheme(t) != "relative"@ {
        url_scheme(t) + "://"@
    } else {
        Seq::empty()
    };
    let user_part = if url_username(t).len() > 0 {
        url_username(t) + prefixed(":"@, url_password(t)) + "@"@
    } else {
        Seq::empty()
    };
    let host_part = if host.contains(':') {
        "["@ + host + "]"@
    } else {
        host
    };
    scheme_part + user_part + host_part + port_suffix(url_port(t)) + url_path(t) + prefixed(
        "?"@,
        url_query(t),
    ) + fragment_suffix(v)
}

/// The text before the root slash is dropped.
pub open spec fn full_text(v: URLView) -> Seq<char> {
    match v.original_host {
        Some(o) => if o.contains(':') || o.contains('%') {
            rebuilt_text(v, o)
        } else {
            v.text
        },
        None => v.text,
    }
}

/// The URL as text: a relative URL's path with its query and fragment;
/// otherwise the URL's text (rebuilt round a host as written), without the
/// root slash when it was not written.
pub open spec fn spec_to_string(v: URLView) -> Seq<char> {
    let t = v.text;
    match v.relative_path {
        Some(rel) => rel + (match url_query(t) {
            Some(q) => if q.len() > 0 {
                "?"@ + q
            } else {
                Seq::empty()
            },
            None => Seq::empty(),
        }) + fragment_suffix(v),
        None => {
            let s = full_text(v);
            if !v.has_trailing_slash && url_path(t) == "/"@ {
                if ends_with(s, "/"@) && url_query(t) is None && url_fragment(t) is None {
                    s.drop_last()
                } else if url_query(t) is Some && find_sub(s, "/?"@) is Some {
                    remove_at(s, find_sub(s, "/?"@).unwrap())
                } else if v.fragment.len() > 0 && find_sub(s, "/#"@) is Some {
                    remove_at(s, find_sub(s, "/#"@).unwrap())
                } else {
                    s
                }
            } else {
                s
            }
        },
    }
}

/// The representation: the URL's text in `URL('..')`, with a password shown
/// as "[secure]".
pub open spec fn spec_repr(v: URLView) -> Seq<char> {
    let t = v.text;
    match url_password(t) {
        Some(_) => {
            let user_part = if url_username(t).len() > 0 {
                url_username(t) + ":[secure]@"@
            } else {
                Seq::empty()
            };
            "URL('"@ + url_scheme(t) + "://"@ + user_part + url_host(t) + port_suffix(
                url_port(t),
            ) + url_path(t) + prefixed("?"@, url_query(t)) + prefixed("#"@, url_fragment(t))
                + "')"@
        },
        None => "URL('"@ + t + "')"@,
    }
}

/// Whether the URL equals a text: its text, or its text as shown against
/// the other text with or without trailing slashes.
pub open spec fn spec_eq_str(v: URLView, other: Seq<char>) -> bool {
    v.text == other || spec_to_string(v) == trim_end_slashes(other) || spec_to_string(v) == other
}

// ----- helpers ---------------------------------------------------------------

fn opt_owned(o: Option<&str>) -> (r: Option<String>)
    ensures
        opt_seq(r) == crate::url_parts::opt_view(o),
{
    match o {
        Some(s) => Some(owned(s)),
        None => None,
    }
}

fn opt_clone(o: &Option<String>) -> (r: Option<String>)
    ensures
        opt_seq(r) == opt_seq(*o),
{
    match o {
        Some(s) => Some(s.clone()),
        None => None,
    }
}

/// The text without brackets round it.
pub fn strip_brackets_str(s: &str) -> (r: String)
    ensures
        r@ == strip_brackets(s@),
{
    let cs = chars_of(s);
    let n = cs.len();
    if n >= 2 && cs[0] == '[' && cs[n - 1] == ']' {
        string_of(cs.as_slice(), 1, n - 1)
    } else {
        assert(cs@.subrange(0, n as int) =~= cs@);
        string_of(cs.as_slice(), 0, n)
    }
}

/// Index of the first occurrence of `p` in `s`.
pub fn find_str(s: &str, p: &str) -> (r: Option<usize>)
    ensures
        match find_sub(s@, p@) {
            Some(i) => r matches Some(k) && k == i && i + p@.len() <= s@.len(),
            None => r is None,
        },
{
    let cs = chars_of(s);
    let ps = chars_of(p);
    crate::text::find_sub_at(cs.as_slice(), ps.as_slice(), 0)
}

/// The text with the character at `i` removed.
fn without_char_at(s: &str, i: usize) -> (r: String)
    requires
        i < s@.len(),
    ensures
        r@ == remove_at(s@, i as int),
{
    let cs = chars_of(s);
    let n = cs.len();
    assert(i < n);
    let mut r = string_of(cs.as_slice(), 0, i);
    let tail = string_of(cs.as_slice(), i + 1, n);
    push_str(&mut r, tail.as_str());
    assert(r@ =~= remove_at(s@, i as int));
    r
}

/// The text with every trailing '/' removed.
pub fn trim_end_slashes_str(s: &str) -> (r: String)
    ensures
        r@ == trim_end_slashes(s@),
{
    let cs = chars_of(s);
    let mut n = cs.len();
    assert(cs@.take(n as int) =~= cs@);
    while n > 0 && cs[n - 1] == '/'
        invariant
            n <= cs@.len(),
            cs@ == s@,
            trim_end_slashes(s@) == trim_end_slashes(cs@.take(n as int)),
        decreases n,
    {
        assert(cs@.take(n as int).drop_last() =~= cs@.take(n - 1));
        n = n - 1;
    }
    assert(cs@.subrange(0, n as int) =~= cs@.take(n as int));
    string_of(cs.as_slice(), 0, n)
}

fn push_port_suffix(s: &mut String, p: Option<u16>)
    ensures
        final(s)@ == old(s)@ + port_suffix(p),
{
    match p {
        Some(n) => {
            push_str(s, ":");
            push_decimal(s, n as u64);
        },
        None => {},
    }
}

fn push_prefixed(s: &mut String, prefix: &str, o: Option<&str>)
    ensures
        final(s)@ == old(s)@ + prefixed(prefix@, crate::url_parts::opt_view(o)),
{
    match o {
        Some(t) => {
            push_str(s, prefix);
            push_str(s, t);
        },
        None => {},
    }
}

impl View for URL {
    type V = URLView;

    closed spec fn view(&self) -> URLView {
        URLView {
            text: self.inner@,
            fragment: self.fragment@,
            has_trailing_slash: self.has_trailing_slash,
            empty_scheme: self.empty_scheme,
            empty_host: self.empty_host,
            original_host: opt_seq(self.original_host),
            relative_path: opt_seq(self.relative_path),
            original_raw_path: opt_seq(self.original_raw_path),
        }
    }
}

impl URL {
    /// A URL with every remembered detail given.
    pub(crate) fn assemble(
        inner: UrlParts,
        fragment: String,
        has_trailing_slash: bool,
        empty_scheme: bool,
        empty_host: bool,
        original_host: Option<String>,
        relative_path: Option<String>,
        original_raw_path: Option<String>,
    ) -> (u: URL)
        ensures
            u@ == (URLView {
                text: inner@,
                fragment: fragment@,
                has_trailing_slash,
                empty_scheme,
                empty_host,
                original_host: opt_seq(original_host),
                relative_path: opt_seq(relative_path),
                original_raw_path: opt_seq(original_raw_path),
            }),
    {
        URL {
            inner,
            fragment,
            has_trailing_slash,
            empty_scheme,
            empty_host,
            original_host,
            relative_path,
            original_raw_path,
        }
    }

    /// A URL from a parsed one: its fragment as parsed, the root slash kept.
    pub fn from_url(url: UrlParts) -> (u: URL)
        ensures
            u@ == (URLView {
                text: url@,
                fragment: or_empty(url_fragment(url@)),
                has_trailing_slash: true,
                empty_scheme: false,
                empty_host: false,
                original_host: None,
                relative_path: None,
                original_raw_path: None,
            }),
    {
        Self::from_url_with_host(url, true, None)
    }

    /// A URL from a parsed one, saying whether the root slash was written.
    pub fn from_url_with_slash(url: UrlParts, has_trailing_slash: bool) -> (u: URL)
        ensures
            u@ == (URLView {
                text: url@,
                fragment: or_empty(url_fragment(url@)),
                has_trailing_slash,
                empty_scheme: false,
                empty_host: false,
                original_host: None,
                relative_path: None,
                original_raw_path: None,
            }),
    {
        Self::from_url_with_host(url, has_trailing_slash, None)
    }

    /// A URL from a parsed one, with the root slash and the host as written.
    pub fn from_url_with_host(url: UrlParts, has_trailing_slash: bool, original_host: Option<String>) -> (u: URL)
        ensures
            u@ == (URLView {
                text: url@,
                fragment: or_empty(url_fragment(url@)),
                has_trailing_slash,
                empty_scheme: false,
                empty_host: false,
                original_host: opt_seq(original_host),
                relative_path: None,
                original_raw_path: None,
            }),
    {
        let fragment = match url.fragment() {
            Some(f) => owned(f),
            None => String::new(),
        };
        URL {
            inner: url,
            fragment,
            has_trailing_slash,
            empty_scheme: false,
            empty_host: false,
            original_host,
            relative_path: None,
            original_raw_path: None,
        }
    }

    /// This URL around another parsed URL, with everything else kept.
    pub(crate) fn replaced(self, inner: UrlParts) -> (u: URL)
        ensures
            u@ == with_text(self@, inner@),
    {
        URL { inner, ..self }
    }

    /// Whether this is a relative URL with its own path.
    pub(crate) fn relative_path_is_some(&self) -> (r: bool)
        ensures
            r == self@.relative_path is Some,
    {
        self.relative_path.is_some()
    }

    /// This URL with another host as written.
    pub(crate) fn with_original_host(self, original_host: Option<String>) -> (u: URL)
        ensures
            u@ == (URLView { original_host: opt_seq(original_host), ..self@ }),
    {
        URL { original_host, ..self }
    }

    /// This URL with another decoded fragment.
    pub(crate) fn with_fragment(self, fragment: String) -> (u: URL)
        ensures
            u@ == (URLView { fragment: fragment@, ..self@ }),
    {
        URL { fragment, ..self }
    }

    /// A copy of this URL.
    pub fn copy(&self) -> (u: URL)
        ensures
            u@ == self@,
    {
        URL {
            inner: self.inner.copy(),
            fragment: self.fragment.clone(),
            has_trailing_slash: self.has_trailing_slash,
            empty_scheme: self.empty_scheme,
            empty_host: self.empty_host,
            original_host: opt_clone(&self.original_host),
            relative_path: opt_clone(&self.relative_path),
            original_raw_path: opt_clone(&self.original_raw_path),
        }
    }

    /// The parsed URL.
    pub fn inner(&self) -> (r: &UrlParts)
        ensures
            r@ == self@.text,
    {
        &self.inner
    }

    /// The url crate's serialisation.
    pub fn as_str(&self) -> (r: &str)
        ensures
            r@ == self@.text,
    {
        self.inner.as_str()
    }

    /// The url crate's serialisation, with any root slash.
    pub fn to_string_raw(&self) -> (r: String)
        ensures
            r@ == self@.text,
    {
        owned(self.inner.as_str())
    }

    /// The parsed host, without IPv6 brackets, lowercased.
    pub fn get_host(&self) -> (r: Option<String>)
        ensures
            match r {
                Some(h) => h@ == spec_get_host_str(self@),
                None => url_host(self@.text).len() == 0,
            },
            url_host(self@.text).len() > 0 ==> r is Some,
    {
        match self.inner.host_str() {
            Some(h) => {
                let s = strip_brackets_str(h);
                Some(to_lower(s.as_str()))
            },
            None => None,
        }
    }

    /// The scheme, empty for a relative URL.
    pub fn get_scheme(&self) -> (r: String)
        ensures
            r@ == spec_get_scheme(self@),
    {
        let s = self.inner.scheme();
        if str_eq(s, "relative") {
            String::new()
        } else {
            owned(s)
        }
    }

    /// The parsed host, without IPv6 brackets, lowercased; empty when there
    /// is none.
    pub fn get_host_str(&self) -> (r: String)
        ensures
            r@ == spec_get_host_str(self@),
    {
        let h = match self.inner.host_str() {
            Some(h) => h,
            None => "",
        };
        proof {
            assert(""@ == Seq::<char>::empty()) by {
                reveal_strlit("");
            }
        }
        let s = strip_brackets_str(h);
        to_lower(s.as_str())
    }

    /// The port, when one is written and is not the scheme's default.
    pub fn get_port(&self) -> (r: Option<u16>)
        ensures
            r == url_port(self@.text),
    {
        self.inner.port()
    }

    /// The user name, percent-decoded.
    pub fn get_username(&self) -> (r: String)
        ensures
            r@ == spec_get_username(self@),
    {
        decode_or_keep(self.inner.username())
    }

    /// The password, percent-decoded.
    pub fn get_password(&self) -> (r: Option<String>)
        ensures
            opt_seq(r) == spec_get_password(self@),
    {
        match self.inner.password() {
            Some(p) => Some(decode_or_keep(p)),
            None => None,
        }
    }

    /// The scheme as shown.
    pub fn scheme(&self) -> (r: String)
        ensures
            r@ == spec_scheme(self@),
    {
        if self.empty_scheme {
            String::new()
        } else {
            self.get_scheme()
        }
    }

    /// The host as shown.
    pub fn host(&self) -> (r: String)
        ensures
            r@ == spec_host(self@),
    {
        if self.empty_host {
            return String::new();
        }
        match &self.original_host {
            Some(o) => {
                let s = strip_brackets_str(o.as_str());
                to_lower(s.as_str())
            },
            None => self.get_host_str(),
        }
    }

    /// The port.
    pub fn port(&self) -> (r: Option<u16>)
        ensures
            r == url_port(self@.text),
    {
        self.inner.port()
    }

    /// The path, percent-decoded.
    pub fn path(&self) -> (r: String)
        ensures
            r@ == spec_path(self@),
    {
        match &self.relative_path {
            Some(rel) => decode_or_keep(rel.as_str()),
            None => decode_or_keep(self.inner.path()),
        }
    }

    /// The query.
    pub fn query(&self) -> (r: String)
        ensures
            r@ == spec_query(self@),
    {
        match &self.original_raw_path {
            Some(raw) => {
                let cs = chars_of(raw.as_str());
                let p = crate::text::find_from(cs.as_slice(), '?', 0, cs.len());
                assert(cs@.subrange(0, cs@.len() as int) =~= cs@);
                if p < cs.len() {
                    assert(cs@.subrange(p + 1, cs@.len() as int) =~= cs@.skip(p + 1));
                    string_of(cs.as_slice(), p + 1, cs.len())
                } else {
                    String::new()
                }
            },
            None => match self.inner.query() {
                Some(q) => owned(q),
                None => String::new(),
            },
        }
    }

    /// The fragment, percent-decoded.
    pub fn fragment(&self) -> (r: String)
        ensures
            r@ == self@.fragment,
    {
        self.fragment.clone()
    }

    /// The path and query.
    pub fn raw_path(&self) -> (r: String)
        ensures
            r@ == spec_raw_path(self@),
    {
        match &self.original_raw_path {
            Some(raw) => raw.clone(),
            None => {
                let mut r = owned(self.inner.path());
                push_prefixed(&mut r, "?", self.inner.query());
                r
            },
        }
    }

    /// The host as sent.
    pub fn raw_host(&self) -> (r: String)
        ensures
            r@ == spec_raw_host(self@),
    {
        match &self.original_host {
            Some(o) => {
                if contains_char(o.as_str(), ':') || contains_char(o.as_str(), '%') {
                    return o.clone();
                }
            },
            None => {},
        }
        let h = match self.inner.host_str() {
            Some(h) => h,
            None => "",
        };
        proof {
            assert(""@ == Seq::<char>::empty()) by {
                reveal_strlit("");
            }
        }
        strip_brackets_str(h)
    }

    /// The scheme as sent: empty for a relative URL.
    pub fn raw_scheme(&self) -> (r: String)
        ensures
            r@ == spec_get_scheme(self@),
    {
        self.get_scheme()
    }

    /// "user", "user:password", or empty.
    pub fn userinfo(&self) -> (r: String)
        ensures
            r@ == spec_userinfo(self@),
    {
        let u = self.inner.username();
        let p = match self.inner.password() {
            Some(p) => p,
            None => "",
        };
        proof {
            assert(""@ == Seq::<char>::empty()) by {
                reveal_strlit("");
            }
        }
        if u.unicode_len() == 0 && p.unicode_len() == 0 {
            String::new()
        } else if p.unicode_len() == 0 {
            owned(u)
        } else {
            let mut r = owned(u);
            push_str(&mut r, ":");
            push_str(&mut r, p);
            r
        }
    }

    /// "userinfo@host:port".
    pub fn netloc(&self) -> (r: String)
        ensures
            r@ == spec_netloc(self@),
    {
        let raw = match self.inner.host_str() {
            Some(h) => h,
            None => "",
        };
        proof {
            assert(""@ == Seq::<char>::empty()) by {
                reveal_strlit("");
            }
        }
        let mut nl = match &self.original_host {
            Some(o) => {
                if contains_char(o.as_str(), ':') {
                    let mut h = owned("[");
                    push_str(&mut h, o.as_str());
                    push_str(&mut h, "]");
                    h
                } else if contains_char(o.as_str(), '%') {
                    o.clone()
                } else {
                    owned(raw)
                }
            },
            None => owned(raw),
        };
        assert(nl@ == netloc_host(self@));
        push_port_suffix(&mut nl, self.inner.port());
        let ui = self.userinfo();
        if ui.as_str().unicode_len() > 0 {
            let mut r = ui;
            push_str(&mut r, "@");
            push_str(&mut r, nl.as_str());
            r
        } else {
            nl
        }
    }

    /// The user name, percent-decoded.
    pub fn username(&self) -> (r: String)
        ensures
            r@ == spec_get_username(self@),
    {
        self.get_username()
    }

    /// The password, percent-decoded.
    pub fn password(&self) -> (r: Option<String>)
        ensures
            opt_seq(r) == spec_get_password(self@),
    {
        self.get_password()
    }

    /// The query parameters.
    pub fn params(&self) -> (q: QueryParams)
        ensures
            q.items() == spec_parse_query(or_empty(url_query(self@.text))),
    {
        match self.inner.query() {
            Some(q) => QueryParams::from_query_string(q),
            None => {
                proof {
                    assert(""@ == Seq::<char>::empty()) by {
                        reveal_strlit("");
                    }
                }
                QueryParams::from_query_string("")
            },
        }
    }

    fn rebuilt(&self, host: &str) -> (r: String)
        ensures
            r@ == rebuilt_text(self@, host@),
    {
        let mut r = String::new();
        let scheme = self.inner.scheme();
        if !str_eq(scheme, "relative") {
            push_str(&mut r, scheme);
            push_str(&mut r, "://");
        }
        let username = self.inner.username();
        if username.unicode_len() > 0 {
            push_str(&mut r, username);
            push_prefixed(&mut r, ":", self.inner.password());
            push_str(&mut r, "@");
        }
        if contains_char(host, ':') {
            push_str(&mut r, "[");
            push_str(&mut r, host);
            push_str(&mut r, "]");
        } else {
            push_str(&mut r, host);
        }
        push_port_suffix(&mut r, self.inner.port());
        push_str(&mut r, self.inner.path());
        push_prefixed(&mut r, "?", self.inner.query());
        if self.fragment.as_str().unicode_len() > 0 {
            push_str(&mut r, "#");
            push_str(&mut r, self.fragment.as_str());
        }
        assert(r@ =~= rebuilt_text(self@, host@));
        r
    }

    fn full(&self) -> (r: String)
        ensures
            r@ == full_text(self@),
    {
        match &self.original_host {
            Some(o) => {
                if contains_char(o.as_str(), ':') || contains_char(o.as_str(), '%') {
                    self.rebuilt(o.as_str())
                } else {
                    owned(self.inner.as_str())
                }
            },
            None => owned(self.inner.as_str()),
        }
    }

    /// The URL as text.
    pub fn to_string(&self) -> (r: String)
        ensures
            r@ == spec_to_string(self@),
    {
        match &self.relative_path {
            Some(rel) => {
                let mut r = rel.clone();
                match self.inner.query() {
                    Some(q) => {
                        if q.unicode_len() > 0 {
                            push_str(&mut r, "?");
                            push_str(&mut r, q);
                        }
                    },
                    None => {},
                }
                if self.fragment.as_str().unicode_len() > 0 {
                    push_str(&mut r, "#");
                    push_str(&mut r, self.fragment.as_str());
                }
                assert(r@ =~= spec_to_string(self@));
                return r;
            },
            None => {},
        }
        let s = self.full();
        let path = self.inner.path();
        if !self.has_trailing_slash && str_eq(path, "/") {
            let query = self.inner.query();
            if crate::text::str_ends_with(s.as_str(), "/") && query.is_none()
                && self.inner.fragment().is_none() {
                let cs = chars_of(s.as_str());
                let n = cs.len();
                proof {
                    reveal_strlit("/");
                }
                assert(cs@.subrange(0, n - 1) =~= s@.drop_last());
                return string_of(cs.as_slice(), 0, n - 1);
            }
            if query.is_some() {
                match find_str(s.as_str(), "/?") {
                    Some(pos) => {
                        proof {
                            reveal_strlit("/?");
                        }
                        return without_char_at(s.as_str(), pos);
                    },
                    None => {},
                }
            }
            if self.fragment.as_str().unicode_len() > 0 {
                match find_str(s.as_str(), "/#") {
                    Some(pos) => {
                        proof {
                            reveal_strlit("/#");
                        }
                        return without_char_at(s.as_str(), pos);
                    },
                    None => {},
                }
            }
        }
        s
    }

    /// The representation, with any password masked.
    pub fn repr(&self) -> (r: String)
        ensures
            r@ == spec_repr(self@),
    {
        let mut r = owned("URL('");
        if self.inner.password().is_some() {
            push_str(&mut r, self.inner.scheme());
            push_str(&mut r, "://");
            let username = self.inner.username();
            if username.unicode_len() > 0 {
                push_str(&mut r, username);
                push_str(&mut r, ":[secure]@");
            }
            match self.inner.host_str() {
                Some(h) => push_str(&mut r, h),
                None => {},
            }
            push_port_suffix(&mut r, self.inner.port());
            push_str(&mut r, self.inner.path());
            push_prefixed(&mut r, "?", self.inner.query());
            push_prefixed(&mut r, "#", self.inner.fragment());
        } else {
            push_str(&mut r, self.inner.as_str());
        }
        push_str(&mut r, "')");
        assert(r@ =~= spec_repr(self@));
        r
    }

    /// Equality with another URL: the same text.
    pub fn eq_url(&self, other: &URL) -> (r: bool)
        ensures
            r == (self@.text == other@.text),
    {
        str_eq(self.inner.as_str(), other.inner.as_str())
    }

    /// Equality with a text.
    pub fn eq_str(&self, other: &str) -> (r: bool)
        ensures
            r == spec_eq_str(self@, other@),
    {
        if str_eq(self.inner.as_str(), other) {
            return true;
        }
        let shown = self.to_string();
        let trimmed = trim_end_slashes_str(other);
        str_eq(shown.as_str(), trimmed.as_str()) || str_eq(shown.as_str(), other)
    }
}

} // verus!
