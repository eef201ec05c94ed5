//! The url crate's parsed URL, carried through the library as an opaque
//! value together with its serialisation.
//!
//! The url crate keeps every `url::Url` equal to what parsing its own
//! serialisation gives (`Url::check_invariants`, which its tests run after
//! every setter): the same text and component offsets, the same port, and the
//! same host except that "no host" and an empty host may swap.  The one
//! setter call that breaks this, `set_host(None)`, is never made here.  So
//! what the crate reports about a URL, with the host read as text (empty for
//! none), and every URL that joining or a setter produces, is a function of
//! the serialisation.  Each such function is named here and reached through
//! one small trusted wrapper; the URL logic built on them is verified
//! elsewhere.
use vstd::prelude::*;
use vstd::string::StringSliceAdditionalSpecFns;

verus! {

/// A URL as parsed by the url crate (`url::Url`).
#[verifier::external_type_specification]
#[verifier::external_body]
pub struct ExUrl(url::Url);

/// A URL parsed by the url crate, with its serialisation.
pub struct UrlParts {
    url: url::Url,
    text: String,
}

impl View for UrlParts {
    type V = Seq<char>;

    /// The serialisation (`Url::as_str`).
    closed spec fn view(&self) -> Seq<char> {
        self.text@
    }
}

/// `Url::parse` of a text: the serialisation of the URL, or the parse
/// error's message.
pub uninterp spec fn url_parsed(input: Seq<char>) -> Result<Seq<char>, Seq<char>>;

/// `Url::join` of a reference onto the URL with the given serialisation: the
/// joined URL's serialisation, or the error's message.
pub uninterp spec fn url_joined(base: Seq<char>, input: Seq<char>) -> Result<Seq<char>, Seq<char>>;

/// `Url::scheme` of the URL with the given serialisation.
pub uninterp spec fn url_scheme(text: Seq<char>) -> Seq<char>;

/// `Url::username` of the URL with the given serialisation.
pub uninterp spec fn url_username(text: Seq<char>) -> Seq<char>;

/// `Url::password` of the URL with the given serialisation.
pub uninterp spec fn url_password(text: Seq<char>) -> Option<Seq<char>>;

/// `Url::host_str` of the URL with the given serialisation, as text: the
/// empty text where there is no host.
pub uninterp spec fn url_host(text: Seq<char>) -> Seq<char>;

/// `Url::port` of the URL with the given serialisation.
pub uninterp spec fn url_port(text: Seq<char>) -> Option<u16>;

/// `Url::path` of the URL with the given serialisation.
pub uninterp spec fn url_path(text: Seq<char>) -> Seq<char>;

/// `Url::query` of the URL with the given serialisation.
pub uninterp spec fn url_query(text: Seq<char>) -> Option<Seq<char>>;

/// `Url::fragment` of the URL with the given serialisation.
pub uninterp spec fn url_fragment(text: Seq<char>) -> Option<Seq<char>>;

/// The serialisation after `Url::set_query`.
pub uninterp spec fn url_with_query(text: Seq<char>, query: Option<Seq<char>>) -> Seq<char>;

/// The serialisation after `Url::set_path`.
pub uninterp spec fn url_with_path(text: Seq<char>, path: Seq<char>) -> Seq<char>;

/// The serialisation after `Url::set_fragment`.
pub uninterp spec fn url_with_fragment(text: Seq<char>, fragment: Option<Seq<char>>) -> Seq<char>;

/// The serialisation after `Url::set_scheme`, or `None` where it refuses.
pub uninterp spec fn url_with_scheme(text: Seq<char>, scheme: Seq<char>) -> Option<Seq<char>>;

/// The serialisation after `Url::set_host` with a host, or the error's
/// message.
pub uninterp spec fn url_with_host(text: Seq<char>, host: Seq<char>) -> Result<Seq<char>, Seq<char>>;

/// The serialisation after `Url::set_port`, or `None` where it refuses.
pub uninterp spec fn url_with_port(text: Seq<char>, port: Option<u16>) -> Option<Seq<char>>;

/// The serialisation after `Url::set_username`, or `None` where it refuses.
pub uninterp spec fn url_with_username(text: Seq<char>, username: Seq<char>) -> Option<Seq<char>>;

/// The serialisation after `Url::set_password`, or `None` where it refuses.
pub uninterp spec fn url_with_password(text: Seq<char>, password: Option<Seq<char>>) -> Option<Seq<char>>;

/// A character the url crate writes into a query as it is: ASCII letters
/// and digits, '-', '.', '_', '~', '%', '=', '&' and '+'.
pub open spec fn query_safe_char(c: char) -> bool {
    ('0' <= c && c <= '9') || ('A' <= c && c <= 'Z') || ('a' <= c && c <= 'z') || c == '-' || c
        == '.' || c == '_' || c == '~' || c == '%' || c == '=' || c == '&' || c == '+'
}

/// Only characters the url crate writes into a query as they are.
pub open spec fn query_safe_text(s: Seq<char>) -> bool {
    forall|i: int| 0 <= i < s.len() ==> query_safe_char(#[trigger] s[i])
}

/// The view of an optional string slice.
pub open spec fn opt_view(s: Option<&str>) -> Option<Seq<char>> {
    match s {
        Some(t) => Some(t@),
        None => None,
    }
}

/// The length of an optional string slice, zero for `None`.
pub open spec fn opt_len(s: Option<&str>) -> nat {
    match s {
        Some(t) => t@.len(),
        None => 0,
    }
}

/// The url crate's setters panic once a serialisation outgrows `u32`
/// offsets; the library calls them only while the URL's UTF-8 bytes and the
/// new part, at twelve bytes a character (the most a percent-encoded or
/// host-mapped character takes), stay within that limit.
pub open spec fn setter_fits(text: Seq<char>, arg_len: nat) -> bool {
    crate::text::enc(text).len() + 12 * arg_len < 0x1_0000_0000
}

/// Whether a setter may be called on the URL `text` with a part of
/// `arg_len` characters.
pub(crate) fn setter_room(text: &str, arg_len: usize) -> (r: bool)
    ensures
        r == setter_fits(text@, arg_len as nat),
{
    let k: usize = text.as_bytes().len();
    assert(k == text.spec_bytes().len());
    assert(text.spec_bytes() == crate::text::enc(text@));
    let n: u64 = k as u64;
    if n >= 0x1_0000_0000 {
        return false;
    }
    let room: u64 = 0xFFFF_FFFF - n;
    let a: u64 = arg_len as u64;
    let ok = a <= room / 12;
    assert(ok <==> 12 * a <= room) by (nonlinear_arith)
        requires
            ok == (a <= room / 12),
    ;
    ok
}

/// Trusted: `url::Url::parse`; on success the URL and its serialisation, on
/// failure the error's message.
#[verifier::external_body]
pub(crate) fn parse_url(input: &str) -> (r: Result<UrlParts, String>)
    ensures
        match r {
            Ok(u) => url_parsed(input@) == Ok::<Seq<char>, Seq<char>>(u@),
            Err(e) => url_parsed(input@) == Err::<Seq<char>, Seq<char>>(e@),
        },
{
    match url::Url::parse(input) {
        Ok(url) => Ok(UrlParts { text: url.as_str().to_string(), url }),
        Err(e) => Err(e.to_string()),
    }
}

impl UrlParts {
    /// Trusted: `url::Url::join` of a reference onto this URL.
    #[verifier::external_body]
    pub(crate) fn join(&self, input: &str) -> (r: Result<UrlParts, String>)
        ensures
            match r {
                Ok(u) => url_joined(self@, input@) == Ok::<Seq<char>, Seq<char>>(u@),
                Err(e) => url_joined(self@, input@) == Err::<Seq<char>, Seq<char>>(e@),
            },
    {
        match self.url.join(input) {
            Ok(url) => Ok(UrlParts { text: url.as_str().to_string(), url }),
            Err(e) => Err(e.to_string()),
        }
    }

    /// The serialisation (`Url::as_str`).
    pub fn as_str(&self) -> (r: &str)
        ensures
            r@ == self@,
    {
        self.text.as_str()
    }

    /// A copy of this URL.
    pub fn copy(&self) -> (r: UrlParts)
        ensures
            r@ == self@,
    {
        UrlParts { url: self.url_clone(), text: self.text.clone() }
    }

    /// Trusted: `Clone::clone` of the url crate's URL.  Nothing is stated of
    /// the clone: callers pair it with the serialisation they copied.
    #[verifier::external_body]
    fn url_clone(&self) -> (r: url::Url) {
        self.url.clone()
    }

    /// Trusted: `url::Url::scheme`.
    #[verifier::external_body]
    pub(crate) fn scheme(&self) -> (r: &str)
        ensures
            r@ == url_scheme(self@),
    {
        self.url.scheme()
    }

    /// Trusted: `url::Url::username`.
    #[verifier::external_body]
    pub(crate) fn username(&self) -> (r: &str)
        ensures
            r@ == url_username(self@),
    {
        self.url.username()
    }

    /// Trusted: `url::Url::password`.
    #[verifier::external_body]
    pub(crate) fn password(&self) -> (r: Option<&str>)
        ensures
            opt_view(r) == url_password(self@),
    {
        self.url.password()
    }

    /// Trusted: `url::Url::host_str`.  Whether a URL without a host reports
    /// `None` or an empty host is not stated (the crate lets the two swap).
    #[verifier::external_body]
    pub(crate) fn host_str(&self) -> (r: Option<&str>)
        ensures
            match r {
                Some(h) => h@ == url_host(self@),
                None => url_host(self@).len() == 0,
            },
    {
        self.url.host_str()
    }

    /// Trusted: `url::Url::port`.
    #[verifier::external_body]
    pub(crate) fn port(&self) -> (r: Option<u16>)
        ensures
            r == url_port(self@),
    {
        self.url.port()
    }

    /// Trusted: `url::Url::path`.
    #[verifier::external_body]
    pub(crate) fn path(&self) -> (r: &str)
        ensures
            r@ == url_path(self@),
    {
        self.url.path()
    }

    /// Trusted: `url::Url::query`.
    #[verifier::external_body]
    pub(crate) fn query(&self) -> (r: Option<&str>)
        ensures
            opt_view(r) == url_query(self@),
    {
        self.url.query()
    }

    /// Trusted: `url::Url::fragment`.
    #[verifier::external_body]
    pub(crate) fn fragment(&self) -> (r: Option<&str>)
        ensures
            opt_view(r) == url_fragment(self@),
    {
        self.url.fragment()
    }

    /// Trusted: `url::Url::set_query`.  A query made only of characters that
    /// no query encode set holds (`query_safe_text`) is stored as it is, so
    /// `query` then gives it back; `None` leaves no query.
    #[verifier::external_body]
    pub(crate) fn set_query(&mut self, query: Option<&str>)
        requires
            setter_fits(old(self)@, opt_len(query)),
        ensures
            final(self)@ == url_with_query(old(self)@, opt_view(query)),
            match query {
                Some(q) => query_safe_text(q@) ==> url_query(final(self)@) == Some(q@),
                None => url_query(final(self)@) is None,
            },
    {
        self.url.set_query(query);
        self.text = self.url.as_str().to_string();
    }

    /// Trusted: `url::Url::set_path`.
    #[verifier::external_body]
    pub(crate) fn set_path(&mut self, path: &str)
        requires
            setter_fits(old(self)@, path@.len()),
        ensures
            final(self)@ == url_with_path(old(self)@, path@),
    {
        self.url.set_path(path);
        self.text = self.url.as_str().to_string();
    }

    /// Trusted: `url::Url::set_fragment`.
    #[verifier::external_body]
    pub(crate) fn set_fragment(&mut self, fragment: Option<&str>)
        requires
            setter_fits(old(self)@, opt_len(fragment)),
        ensures
            final(self)@ == url_with_fragment(old(self)@, opt_view(fragment)),
    {
        self.url.set_fragment(fragment);
        self.text = self.url.as_str().to_string();
    }

    /// Trusted: `url::Url::set_scheme`; `false` where it refuses, the URL then
    /// being unchanged.
    #[verifier::external_body]
    pub(crate) fn set_scheme(&mut self, scheme: &str) -> (r: bool)
        requires
            setter_fits(old(self)@, scheme@.len()),
        ensures
            match url_with_scheme(old(self)@, scheme@) {
                Some(t) => r && final(self)@ == t,
                None => !r && final(self)@ == old(self)@,
            },
    {
        let ok = self.url.set_scheme(scheme).is_ok();
        self.text = self.url.as_str().to_string();
        ok
    }

    /// Trusted: `url::Url::set_host` with a host (never `None`); the error's
    /// message where it refuses, the URL then being unchanged.
    #[verifier::external_body]
    pub(crate) fn set_host(&mut self, host: &str) -> (r: Result<(), String>)
        requires
            setter_fits(old(self)@, host@.len()),
        ensures
            match url_with_host(old(self)@, host@) {
                Ok(t) => r is Ok && final(self)@ == t,
                Err(m) => r matches Err(e) && e@ == m && final(self)@ == old(self)@,
            },
    {
        let r = self.url.set_host(Some(host)).map_err(|e| e.to_string());
        self.text = self.url.as_str().to_string();
        r
    }

    /// Trusted: `url::Url::set_port`; `false` where it refuses, the URL then
    /// being unchanged.
    #[verifier::external_body]
    pub(crate) fn set_port(&mut self, port: Option<u16>) -> (r: bool)
        requires
            setter_fits(old(self)@, 0),
        ensures
            match url_with_port(old(self)@, port) {
                Some(t) => r && final(self)@ == t,
                None => !r && final(self)@ == old(self)@,
            },
    {
        let ok = self.url.set_port(port).is_ok();
        self.text = self.url.as_str().to_string();
        ok
    }

    /// Trusted: `url::Url::set_username`; `false` where it refuses, the URL
    /// then being unchanged.
    #[verifier::external_body]
    pub(crate) fn set_username(&mut self, username: &str) -> (r: bool)
        requires
            setter_fits(old(self)@, username@.len()),
        ensures
            match url_with_username(old(self)@, username@) {
                Some(t) => r && final(self)@ == t,
                None => !r && final(self)@ == old(self)@,
            },
    {
        let ok = self.url.set_username(username).is_ok();
        self.text = self.url.as_str().to_string();
        ok
    }

    /// Trusted: `url::Url::set_password`; `false` where it refuses, the URL
    /// then being unchanged.
    #[verifier::external_body]
    pub(crate) fn set_password(&mut self, password: Option<&str>) -> (r: bool)
        requires
            setter_fits(old(self)@, opt_len(password)),
        ensures
            match url_with_password(old(self)@, opt_view(password)) {
                Some(t) => r && final(self)@ == t,
                None => !r && final(self)@ == old(self)@,
            },
    {
        let ok = self.url.set_password(password).is_ok();
        self.text = self.url.as_str().to_string();
        ok
    }
}

} // verus!
