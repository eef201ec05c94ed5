//! Building a `URL`: from its text (with the special forms "://host" and
//! "scheme://", and hosts holding spaces), or from its components.
use crate::queryparams::{spec_to_query_string, Params, QueryParams};
use crate::text::{
    chars_of, ends_with, enc, find_sub, find_sub_from, first_piece, owned, push_str, starts_with,
    str_contains, str_ends_with, str_starts_with, string_of,
};
use crate::url_checks::{
    all_digits, auth_end, auth_len, byte_len, check_url_text, digits_only, find_non_printable,
    non_printable_message, rfind_char, rfind_in, url_text_error, MAX_URL_LENGTH,
};
use crate::url_model::{
    opt_seq, or_empty, port_suffix, strip_brackets, strip_brackets_str, URLView, URL,
};
use crate::url_parts::{
    opt_view, parse_url, setter_fits, url_fragment, url_joined, url_parsed, url_path, UrlParts,
};
use crate::url_text::{
    decode_fragment, extract_original_host, extract_original_raw_path, spec_decode_fragment,
    spec_original_host, spec_original_raw_path,
};
use vstd::prelude::*;
use vstd::string::StrSliceExecFns;

verus! {

// ----- bytes as text -------------------------------------------------------

/// `String::from_utf8_lossy` of some bytes.
pub uninterp spec fn utf8_lossy(bytes: Seq<u8>) -> Seq<char>;

/// Trusted: `String::from_utf8_lossy`, which reads bytes as UTF-8 with each
/// invalid sequence replaced by U+FFFD; valid UTF-8 is read as it is.
#[verifier::external_body]
pub(crate) fn lossy_text(bytes: &[u8]) -> (r: String)
    ensures
        r@ == utf8_lossy(bytes@),
        vstd::utf8::valid_utf8(bytes@) ==> r@ == vstd::utf8::decode_utf8(bytes@),
{
    String::from_utf8_lossy(bytes).into_owned()
}

// ----- results ---------------------------------------------------------------

/// A built URL, or the message of the `InvalidURL` error.
pub open spec fn built(r: Result<URL, String>, s: Result<URLView, Seq<char>>) -> bool {
    match s {
        Ok(v) => r matches Ok(u) && u@ == v,
        Err(m) => r matches Err(e) && e@ == m,
    }
}

/// The pairs of optional query parameters.
pub open spec fn params_items(p: Option<&QueryParams>) -> Option<Params> {
    match p {
        Some(q) => Some(q.items()),
        None => None,
    }
}

/// A URL's text after its query is replaced by the parameters (always), or
/// `None` when the URL would grow too long.
pub open spec fn with_params_always(text: Seq<char>, params: Option<Params>) -> Option<Seq<char>> {
    match params {
        None => Some(text),
        Some(p) => {
            let qs = spec_to_query_string(p);
            if setter_fits(text, qs.len()) {
                Some(crate::url_parts::url_with_query(text, Some(qs)))
            } else {
                None
            }
        },
    }
}

/// A URL's text after its query is replaced by the parameters, removed when
/// they make an empty query; `None` when the URL would grow too long.
pub open spec fn with_params_nonempty(text: Seq<char>, params: Option<Params>) -> Option<Seq<char>> {
    match params {
        None => Some(text),
        Some(p) => {
            let qs = spec_to_query_string(p);
            if setter_fits(text, qs.len()) {
                Some(
                    if qs.len() > 0 {
                        crate::url_parts::url_with_query(text, Some(qs))
                    } else {
                        crate::url_parts::url_with_query(text, None)
                    },
                )
            } else {
                None
            }
        },
    }
}

fn apply_params(url: &mut UrlParts, params: Option<&QueryParams>, always: bool) -> (ok: bool)
    ensures
        ok == (if always {
            with_params_always(old(url)@, params_items(params))
        } else {
            with_params_nonempty(old(url)@, params_items(params))
        }) is Some,
        ok ==> Some(final(url)@) == (if always {
            with_params_always(old(url)@, params_items(params))
        } else {
            with_params_nonempty(old(url)@, params_items(params))
        }),
{
    match params {
        None => true,
        Some(q) => {
            let qs = q.to_query_string();
            let m = qs.as_str().unicode_len();
            if !crate::url_parts::setter_room(url.as_str(), m) {
                return false;
            }
            if always || m > 0 {
                url.set_query(Some(qs.as_str()));
            } else {
                url.set_query(None);
            }
            true
        },
    }
}

// ----- "://host" -----------------------------------------------------------

/// Whether the text before any "?" and "#" ends with "/".
pub open spec fn base_ends_with_slash(s: Seq<char>) -> bool {
    ends_with(first_piece(first_piece(s, '?'), '#'), "/"@)
}

fn base_has_slash(s: &str) -> (r: bool)
    ensures
        r == base_ends_with_slash(s@),
{
    let cs = chars_of(s);
    let n = cs.len();
    let q = crate::text::first_piece_bounds(cs.as_slice(), '?', 0, n);
    assert(cs@.subrange(0, n as int) =~= s@);
    let h = crate::text::first_piece_bounds(cs.as_slice(), '#', 0, q);
    let base = string_of(cs.as_slice(), 0, h);
    str_ends_with(base.as_str(), "/")
}

/// The fragment of a parsed URL, percent-decoded.
pub open spec fn decoded_fragment(text: Seq<char>) -> Seq<char> {
    spec_decode_fragment(or_empty(url_fragment(text)))
}

fn fragment_of(url: &UrlParts) -> (r: String)
    ensures
        r@ == decoded_fragment(url@),
{
    match url.fragment() {
        Some(f) => decode_fragment(f),
        None => {
            proof {
                assert(""@ == Seq::<char>::empty()) by {
                    reveal_strlit("");
                }
            }
            decode_fragment("")
        },
    }
}

/// A URL written without a scheme ("://host..."): parsed as "http://host..."
/// and remembered as having no scheme.
pub open spec fn empty_scheme_case(s: Seq<char>, params: Option<Params>) -> Result<URLView, Seq<char>> {
    match url_parsed("http://"@ + s.skip(3)) {
        Ok(t0) => match with_params_always(t0, params) {
            None => Err("URL too long"@),
            Some(t) => Ok(
                URLView {
                    text: t,
                    fragment: decoded_fragment(t),
                    has_trailing_slash: base_ends_with_slash(s),
                    empty_scheme: true,
                    empty_host: false,
                    original_host: None,
                    relative_path: None,
                    original_raw_path: None,
                },
            ),
        },
        Err(e) => Err("Invalid URL: "@ + e),
    }
}

fn build_empty_scheme(s: &str, params: Option<&QueryParams>) -> (r: Result<URL, String>)
    requires
        starts_with(s@, "://"@),
    ensures
        built(r, empty_scheme_case(s@, params_items(params))),
{
    let cs = chars_of(s);
    proof {
        reveal_strlit("://");
    }
    let rest = string_of(cs.as_slice(), 3, cs.len());
    assert(rest@ =~= s@.skip(3));
    let mut temp = owned("http://");
    push_str(&mut temp, rest.as_str());
    match parse_url(temp.as_str()) {
        Ok(mut parsed) => {
            if !apply_params(&mut parsed, params, true) {
                return Err(owned("URL too long"));
            }
            let hts = base_has_slash(s);
            let frag = fragment_of(&parsed);
            Ok(URL::assemble(parsed, frag, hts, true, false, None, None, None))
        },
        Err(e) => {
            let mut m = owned("Invalid URL: ");
            push_str(&mut m, e.as_str());
            Err(m)
        },
    }
}

// ----- "scheme://" -----------------------------------------------------------

/// The text between the first "://" and the next one (or the end).
pub open spec fn first_authority_piece(s: Seq<char>) -> Seq<char> {
    let after = s.skip(find_sub(s, "://"@).unwrap() + 3);
    match find_sub(after, "://"@) {
        Some(b) => after.take(b),
        None => after,
    }
}

/// A URL written without a host: it ends with "://", or has nothing (or
/// just "/") after its "://".
pub open spec fn has_empty_authority(s: Seq<char>) -> bool {
    ends_with(s, "://"@) || (find_sub(s, "://"@) is Some && (first_authority_piece(s).len() == 0
        || first_authority_piece(s) == "/"@))
}

/// The text without any leading '/'.
pub open spec fn trim_start_slashes(s: Seq<char>) -> Seq<char>
    decreases s.len(),
{
    if s.len() > 0 && s[0] == '/' {
        trim_start_slashes(s.drop_first())
    } else {
        s
    }
}

/// A URL written without a host ("scheme://..."): parsed with a placeholder
/// host and remembered as having none; when that fails, the scheme alone
/// with the placeholder; `None` when that fails too.
pub open spec fn empty_host_case(s: Seq<char>, params: Option<Params>) -> Option<Result<URLView, Seq<char>>> {
    let a = find_sub(s, "://"@).unwrap();
    let scheme = s.take(a);
    let rest = s.skip(a + 3);
    match url_parsed(scheme + "://placeholder.invalid/"@ + trim_start_slashes(rest)) {
        Ok(t0) => Some(
            match with_params_always(t0, params) {
                None => Err("URL too long"@),
                Some(t) => Ok(
                    URLView {
                        text: t,
                        fragment: decoded_fragment(t),
                        has_trailing_slash: ends_with(rest, "/"@) || rest.len() == 0,
                        empty_scheme: false,
                        empty_host: true,
                        original_host: None,
                        relative_path: None,
                        original_raw_path: None,
                    },
                ),
            },
        ),
        Err(_) => match url_parsed(scheme + "://placeholder.invalid/"@) {
            Ok(t) => Some(
                Ok(
                    URLView {
                        text: t,
                        fragment: Seq::empty(),
                        has_trailing_slash: true,
                        empty_scheme: false,
                        empty_host: true,
                        original_host: None,
                        relative_path: None,
                        original_raw_path: None,
                    },
                ),
            ),
            Err(_) => None,
        },
    }
}

fn empty_authority(s: &str) -> (r: bool)
    ensures
        r == has_empty_authority(s@),
{
    if str_ends_with(s, "://") {
        return true;
    }
    let cs = chars_of(s);
    let sep = chars_of("://");
    proof {
        reveal_strlit("://");
        reveal_strlit("/");
    }
    assert(sep@.len() == 3);
    match crate::text::find_sub_at(cs.as_slice(), sep.as_slice(), 0) {
        None => false,
        Some(a) => {
            let n = cs.len();
            assert(a + 3 <= n);
            let ghost after = s@.skip(a + 3);
            let piece_end = match crate::text::find_sub_at(cs.as_slice(), sep.as_slice(), a + 3) {
                Some(b) => b,
                None => n,
            };
            proof {
                lemma_find_sub_shift(s@, "://"@, a + 3);
                lemma_find_sub_from_ge(s@, "://"@, a + 3);
            }
            let piece = string_of(cs.as_slice(), a + 3, piece_end);
            assert(piece@ =~= first_authority_piece(s@));
            piece.as_str().unicode_len() == 0 || crate::text::str_eq(piece.as_str(), "/")
        },
    }
}

/// A match found from a position lies at or after it.
pub proof fn lemma_find_sub_from_ge(s: Seq<char>, p: Seq<char>, i: int)
    ensures
        match find_sub_from(s, p, i) {
            Some(k) => i <= k && k + p.len() <= s.len(),
            None => true,
        },
    decreases s.len() + 1 - i,
{
    if i < 0 || i + p.len() > s.len() {
    } else if starts_with(s.skip(i), p) {
    } else {
        lemma_find_sub_from_ge(s, p, i + 1);
    }
}

/// Finding from a position is finding in the text that starts there.
pub proof fn lemma_find_sub_shift(s: Seq<char>, p: Seq<char>, k: int)
    requires
        0 <= k <= s.len(),
    ensures
        match find_sub_from(s, p, k) {
            Some(i) => find_sub(s.skip(k), p) == Some(i - k),
            None => find_sub(s.skip(k), p) is None,
        },
{
    lemma_find_sub_shift_from(s, p, k, 0);
}

proof fn lemma_find_sub_shift_from(s: Seq<char>, p: Seq<char>, k: int, j: int)
    requires
        0 <= k <= s.len(),
        0 <= j,
    ensures
        match find_sub_from(s, p, k + j) {
            Some(i) => crate::text::find_sub_from(s.skip(k), p, j) == Some(i - k),
            None => crate::text::find_sub_from(s.skip(k), p, j) is None,
        },
    decreases s.len() + 1 - k - j,
{
    if k + j + p.len() > s.len() {
    } else {
        assert(s.skip(k).skip(j) =~= s.skip(k + j));
        if !starts_with(s.skip(k + j), p) {
            lemma_find_sub_shift_from(s, p, k, j + 1);
        }
    }
}

fn build_empty_host(s: &str, params: Option<&QueryParams>) -> (r: Option<Result<URL, String>>)
    requires
        find_sub(s@, "://"@) is Some,
    ensures
        match empty_host_case(s@, params_items(params)) {
            Some(x) => r matches Some(y) && built(y, x),
            None => r is None,
        },
{
    let cs = chars_of(s);
    let sep = chars_of("://");
    proof {
        reveal_strlit("://");
    }
    assert(sep@.len() == 3);
    let a = match crate::text::find_sub_at(cs.as_slice(), sep.as_slice(), 0) {
        Some(a) => a,
        None => {
            return None;
        },
    };
    let n = cs.len();
    assert(a + 3 <= n);
    let scheme = string_of(cs.as_slice(), 0, a);
    let rest_start = trim_start_from(cs.as_slice(), a + 3);
    let rest = string_of(cs.as_slice(), a + 3, n);
    let trimmed = string_of(cs.as_slice(), rest_start, n);
    assert(scheme@ =~= s@.take(a as int));
    assert(rest@ =~= s@.skip(a + 3));
    let mut temp = scheme.clone();
    push_str(&mut temp, "://placeholder.invalid/");
    let base = temp.clone();
    push_str(&mut temp, trimmed.as_str());
    match parse_url(temp.as_str()) {
        Ok(mut parsed) => {
            if !apply_params(&mut parsed, params, true) {
                return Some(Err(owned("URL too long")));
            }
            let hts = str_ends_with(rest.as_str(), "/") || rest.as_str().unicode_len() == 0;
            let frag = fragment_of(&parsed);
            Some(Ok(URL::assemble(parsed, frag, hts, false, true, None, None, None)))
        },
        Err(_) => match parse_url(base.as_str()) {
            Ok(parsed) => Some(Ok(URL::assemble(parsed, String::new(), true, false, true, None, None, None))),
            Err(_) => None,
        },
    }
}

/// The first index from `from` that is not '/', with the text from there
/// being `trim_start_slashes` of the text from `from`.
fn trim_start_from(cs: &[char], from: usize) -> (r: usize)
    requires
        from <= cs@.len(),
    ensures
        from <= r <= cs@.len(),
        cs@.subrange(r as int, cs@.len() as int) == trim_start_slashes(cs@.subrange(from as int, cs@.len() as int)),
{
    let n = cs.len();
    let mut i = from;
    while i < n && cs[i] == '/'
        invariant
            from <= i <= n == cs@.len(),
            trim_start_slashes(cs@.subrange(from as int, n as int)) == trim_start_slashes(cs@.subrange(i as int, n as int)),
        decreases n - i,
    {
        assert(cs@.subrange(i as int, n as int).drop_first() =~= cs@.subrange(i + 1, n as int));
        i = i + 1;
    }
    i
}


// ----- hosts holding spaces --------------------------------------------------

/// The text with every space written as "%20".
pub open spec fn spaces_encoded(s: Seq<char>) -> Seq<char>
    decreases s.len(),
{
    if s.len() == 0 {
        Seq::empty()
    } else {
        (if s[0] == ' ' {
            "%20"@
        } else {
            seq![s[0]]
        }) + spaces_encoded(s.drop_first())
    }
}

fn encode_spaces(s: &str) -> (r: String)
    ensures
        r@ == spaces_encoded(s@),
{
    let cs = chars_of(s);
    let mut out = String::new();
    let mut i: usize = 0;
    proof {
        reveal_strlit("%20");
    }
    assert(cs@.skip(0) =~= cs@);
    assert(out@ + spaces_encoded(cs@) =~= spaces_encoded(cs@));
    while i < cs.len()
        invariant
            i <= cs@.len(),
            cs@ == s@,
            spaces_encoded(s@) == out@ + spaces_encoded(cs@.skip(i as int)),
        decreases cs.len() - i,
    {
        let ghost rest = cs@.skip(i as int);
        assert(rest.drop_first() =~= cs@.skip(i + 1));
        if cs[i] == ' ' {
            push_str(&mut out, "%20");
        } else {
            crate::text::push_char(&mut out, cs[i]);
        }
        i = i + 1;
    }
    assert(cs@.skip(cs@.len() as int) =~= Seq::<char>::empty());
    out
}

/// The host part of "host:port": without the port when that is a number.
pub open spec fn host_without_port(hap: Seq<char>) -> Seq<char> {
    match rfind_char(hap, ':') {
        Some(cp) => if hap.skip(cp + 1).len() > 0 && all_digits(hap.skip(cp + 1)) {
            hap.take(cp)
        } else {
            hap
        },
        None => hap,
    }
}

/// A URL whose host holds spaces, with the host replaced by a placeholder,
/// and the host with its spaces encoded; or the URL as it is.
pub open spec fn space_split(s: Seq<char>) -> (Seq<char>, Option<Seq<char>>) {
    match find_sub(s, "://"@) {
        None => (s, None),
        Some(a) => {
            let after = s.skip(a + 3);
            let ae = auth_len(after);
            let auth = after.take(ae);
            let hs = match rfind_char(auth, '@') {
                Some(p) => p + 1,
                None => 0,
            };
            let hap = auth.skip(hs);
            let host = host_without_port(hap);
            if host.contains(' ') {
                (
                    s.take(a + 3) + auth.take(hs) + "placeholder-space-host.invalid"@ + hap.skip(
                        host.len() as int,
                    ) + after.skip(ae),
                    Some(spaces_encoded(host)),
                )
            } else {
                (s, None)
            }
        },
    }
}

#[verifier::rlimit(60)]
fn split_space_host(s: &str) -> (r: (String, Option<String>))
    ensures
        r.0@ == space_split(s@).0,
        opt_seq(r.1) == space_split(s@).1,
{
    let cs = chars_of(s);
    let sep = chars_of("://");
    proof {
        reveal_strlit("://");
    }
    assert(sep@.len() == 3);
    let n = cs.len();
    let a = match crate::text::find_sub_at(cs.as_slice(), sep.as_slice(), 0) {
        Some(a) => a,
        None => {
            return (owned(s), None);
        },
    };
    assert(a + 3 <= n);
    let start = a + 3;
    let ghost after = s@.skip(start as int);
    assert(cs@.subrange(start as int, n as int) =~= after);
    let ae = auth_end(cs.as_slice(), start, n);
    let ghost auth = after.take(auth_len(after));
    assert(cs@.subrange(start as int, ae as int) =~= auth);
    let hs = match rfind_in(cs.as_slice(), '@', start, ae) {
        Some(p) => p + 1,
        None => start,
    };
    let ghost hap = auth.skip(hs - start);
    assert(cs@.subrange(hs as int, ae as int) =~= hap);
    let he = match rfind_in(cs.as_slice(), ':', hs, ae) {
        Some(cp) => {
            assert(cs@.subrange(cp + 1, ae as int) =~= hap.skip(cp - hs + 1));
            if cp + 1 < ae && digits_only(cs.as_slice(), cp + 1, ae) {
                cp
            } else {
                ae
            }
        },
        None => ae,
    };
    let ghost host = host_without_port(hap);
    assert(cs@.subrange(hs as int, he as int) =~= host);
    let host_s = string_of(cs.as_slice(), hs, he);
    if !crate::text::contains_char(host_s.as_str(), ' ') {
        return (owned(s), None);
    }
    let encoded = encode_spaces(host_s.as_str());
    let mut processed = string_of(cs.as_slice(), 0, hs);
    assert(processed@ =~= s@.take(a + 3) + auth.take(hs - start));
    push_str(&mut processed, "placeholder-space-host.invalid");
    let tail = string_of(cs.as_slice(), he, n);
    assert(tail@ =~= hap.skip(host.len() as int) + after.skip(auth_len(after)));
    push_str(&mut processed, tail.as_str());
    assert(processed@ =~= space_split(s@).0);
    (processed, Some(encoded))
}

// ----- the usual form --------------------------------------------------------

/// `Url::parse` of a text; a text without "://" that fails is parsed as a
/// relative URL under the "relative:" scheme.
pub open spec fn parse_or_relative(u: Seq<char>) -> Result<Seq<char>, Seq<char>> {
    match url_parsed(u) {
        Ok(t) => Ok(t),
        Err(_) => if find_sub(u, "://"@) is None {
            url_parsed("relative:"@ + u)
        } else {
            Err("invalid domain character"@)
        },
    }
}

/// A URL in the usual form: parsed (a host with spaces through a
/// placeholder), the parameters set as its query, with the host and raw path
/// as written remembered.
pub open spec fn normal_case(s: Seq<char>, params: Option<Params>) -> Result<URLView, Seq<char>> {
    let u = space_split(s).0;
    let eh = space_split(s).1;
    match parse_or_relative(u) {
        Err(e) => Err("Invalid URL: "@ + e),
        Ok(t0) => match with_params_nonempty(t0, params) {
            None => Err("URL too long"@),
            Some(t) => Ok(
                URLView {
                    text: t,
                    fragment: decoded_fragment(t),
                    has_trailing_slash: if url_path(t) == "/"@ {
                        base_ends_with_slash(u)
                    } else {
                        true
                    },
                    empty_scheme: false,
                    empty_host: false,
                    original_host: match eh {
                        Some(h) => Some(h),
                        None => spec_original_host(u),
                    },
                    relative_path: None,
                    original_raw_path: if params is Some {
                        None
                    } else {
                        spec_original_raw_path(u)
                    },
                },
            ),
        },
    }
}

fn parse_relative_fallback(u: &str) -> (r: Result<UrlParts, String>)
    ensures
        match parse_or_relative(u@) {
            Ok(t) => r matches Ok(p) && p@ == t,
            Err(e) => r matches Err(x) && x@ == e,
        },
{
    match parse_url(u) {
        Ok(p) => Ok(p),
        Err(_) => {
            if !str_contains(u, "://") {
                let mut rel = owned("relative:");
                push_str(&mut rel, u);
                parse_url(rel.as_str())
            } else {
                Err(owned("invalid domain character"))
            }
        },
    }
}

fn build_normal(s: &str, params: Option<&QueryParams>) -> (r: Result<URL, String>)
    ensures
        built(r, normal_case(s@, params_items(params))),
{
    let (u, encoded_host) = split_space_host(s);
    match parse_relative_fallback(u.as_str()) {
        Err(e) => {
            let mut m = owned("Invalid URL: ");
            push_str(&mut m, e.as_str());
            Err(m)
        },
        Ok(mut parsed) => {
            if !apply_params(&mut parsed, params, false) {
                return Err(owned("URL too long"));
            }
            let hts = if crate::text::str_eq(parsed.path(), "/") {
                base_has_slash(u.as_str())
            } else {
                true
            };
            let frag = fragment_of(&parsed);
            let original_host = match encoded_host {
                Some(h) => Some(h),
                None => extract_original_host(u.as_str()),
            };
            let original_raw_path = if params.is_some() {
                None
            } else {
                extract_original_raw_path(u.as_str())
            };
            proof {
                assert(opt_seq(original_host) == (match space_split(s@).1 {
                    Some(h) => Some(h),
                    None => spec_original_host(u@),
                }));
                assert(opt_seq(original_raw_path) == (if params is Some {
                    None
                } else {
                    spec_original_raw_path(u@)
                }));
            }
            Ok(URL::assemble(parsed, frag, hts, false, false, original_host, None, original_raw_path))
        },
    }
}


// ----- components ------------------------------------------------------------

/// The view of optional bytes.
pub open spec fn opt_bytes(b: Option<&[u8]>) -> Option<Seq<u8>> {
    match b {
        Some(x) => Some(x@),
        None => None,
    }
}

/// Why components are refused: a path that is too long or holds a control
/// character, or a query or fragment that is too long (lengths in bytes).
pub open spec fn component_error(
    path: Option<Seq<char>>,
    query: Option<Seq<u8>>,
    fragment: Option<Seq<char>>,
) -> Option<Seq<char>> {
    let path_error = match path {
        Some(p) => if enc(p).len() > MAX_URL_LENGTH {
            Some("URL component 'path' too long"@)
        } else {
            match find_non_printable(p) {
                Some(i) => Some(
                    non_printable_message(
                        "Invalid non-printable ASCII character in URL path component, "@,
                        p,
                        i,
                    ),
                ),
                None => None,
            }
        },
        None => None,
    };
    if path_error is Some {
        path_error
    } else if query matches Some(q) && q.len() > MAX_URL_LENGTH {
        Some("URL component 'query' too long"@)
    } else if fragment matches Some(f) && enc(f).len() > MAX_URL_LENGTH {
        Some("URL component 'fragment' too long"@)
    } else {
        None
    }
}

/// Checks the path, query and fragment a URL is given as components.
pub fn validate_components(path: Option<&str>, query: Option<&[u8]>, fragment: Option<&str>) -> (r: Result<(), String>)
    ensures
        match component_error(opt_view(path), opt_bytes(query), opt_view(fragment)) {
            Some(m) => r matches Err(e) && e@ == m,
            None => r is Ok,
        },
{
    match path {
        Some(p) => {
            if byte_len(p) > MAX_URL_LENGTH {
                return Err(owned("URL component 'path' too long"));
            }
            match crate::url_checks::non_printable_check(
                p,
                "Invalid non-printable ASCII character in URL path component, ",
            ) {
                Some(m) => {
                    return Err(m);
                },
                None => {},
            }
        },
        None => {},
    }
    match query {
        Some(q) => {
            if q.len() > MAX_URL_LENGTH {
                return Err(owned("URL component 'query' too long"));
            }
        },
        None => {},
    }
    match fragment {
        Some(f) => {
            if byte_len(f) > MAX_URL_LENGTH {
                return Err(owned("URL component 'fragment' too long"));
            }
        },
        None => {},
    }
    Ok(())
}

/// A character a scheme may hold: ASCII letters and digits, '+', '-', '.'.
pub open spec fn scheme_char(c: char) -> bool {
    ('0' <= c && c <= '9') || ('a' <= c && c <= 'z') || ('A' <= c && c <= 'Z') || c == '+' || c
        == '-' || c == '.'
}

/// Only scheme characters.
pub open spec fn scheme_chars_ok(s: Seq<char>) -> bool {
    forall|i: int| 0 <= i < s.len() ==> scheme_char(#[trigger] s[i])
}

fn scheme_ok(s: &str) -> (r: bool)
    ensures
        r == scheme_chars_ok(s@),
{
    let cs = chars_of(s);
    let mut i: usize = 0;
    while i < cs.len()
        invariant
            i <= cs@.len(),
            cs@ == s@,
            forall|j: int| 0 <= j < i ==> scheme_char(#[trigger] cs@[j]),
        decreases cs.len() - i,
    {
        let c = cs[i];
        if !(('0' <= c && c <= '9') || ('a' <= c && c <= 'z') || ('A' <= c && c <= 'Z') || c == '+'
            || c == '-' || c == '.') {
            assert(!scheme_char(s@[i as int]));
            return false;
        }
        i = i + 1;
    }
    true
}

/// "scheme://host" (an IPv6 host in brackets), or nothing for a URL with
/// neither.
pub open spec fn components_base(scheme: Seq<char>, host: Seq<char>) -> Seq<char> {
    let hc = strip_brackets(host);
    let host_for_url = if hc.len() > 0 && hc.contains(':') {
        "["@ + hc + "]"@
    } else {
        host
    };
    if host.len() == 0 && scheme.len() == 0 {
        Seq::empty()
    } else {
        scheme + "://"@ + host_for_url
    }
}

/// "?" and the query read as UTF-8, when that is not empty.
pub open spec fn query_part(query: Option<Seq<u8>>) -> Seq<char> {
    match query {
        Some(q) => if utf8_lossy(q).len() > 0 {
            "?"@ + utf8_lossy(q)
        } else {
            Seq::empty()
        },
        None => Seq::empty(),
    }
}

/// "#" and the fragment, when it is not empty.
pub open spec fn fragment_part(fragment: Seq<char>) -> Seq<char> {
    if fragment.len() > 0 {
        "#"@ + fragment
    } else {
        Seq::empty()
    }
}

/// The URL text built from components: "scheme://host", the port, the
/// path, the query and the fragment.
pub open spec fn components_text(
    scheme: Seq<char>,
    host: Seq<char>,
    port: Option<u16>,
    path: Seq<char>,
    query: Option<Seq<u8>>,
    fragment: Seq<char>,
) -> Seq<char> {
    components_base(scheme, host) + port_suffix(port) + path + query_part(query) + fragment_part(
        fragment,
    )
}

/// The URL built from checked components: a relative one resolved against a
/// placeholder, any other parsed, with an IPv6 or IDNA host kept as written.
pub open spec fn finish_case(
    sc: Seq<char>,
    h: Seq<char>,
    port: Option<u16>,
    p: Seq<char>,
    query: Option<Seq<u8>>,
    frag: Seq<char>,
) -> Result<URLView, Seq<char>> {
    let hc = strip_brackets(h);
    let is_ipv6 = hc.len() > 0 && hc.contains(':');
    let us = components_text(sc, h, port, p, query, frag);
    if h.len() == 0 && sc.len() == 0 {
        match url_parsed("relative://dummy"@) {
            Err(e) => Err("Invalid URL: "@ + e),
            Ok(d) => match url_joined(d, us) {
                Ok(t) => Ok(
                    URLView {
                        text: t,
                        fragment: frag,
                        has_trailing_slash: url_path(t) != "/"@ || ends_with(us, "/"@),
                        empty_scheme: false,
                        empty_host: false,
                        original_host: None,
                        relative_path: Some(p),
                        original_raw_path: None,
                    },
                ),
                Err(e) => Err("Invalid URL: "@ + e),
            },
        }
    } else {
        match url_parsed(us) {
            Ok(t) => Ok(
                URLView {
                    text: t,
                    fragment: frag,
                    has_trailing_slash: url_path(t) != "/"@ || ends_with(us, "/"@),
                    empty_scheme: false,
                    empty_host: false,
                    original_host: if is_ipv6 || !vstd::utf8::is_ascii_chars(h) {
                        Some(hc)
                    } else {
                        None
                    },
                    relative_path: None,
                    original_raw_path: None,
                },
            ),
            Err(e) => Err("Invalid URL: "@ + e),
        }
    }
}

/// A URL built from components: the scheme defaults to "http" when there is
/// a host; the components are checked; a URL with neither scheme nor host is
/// relative and resolved against a placeholder.
pub open spec fn components_case(
    scheme: Option<Seq<char>>,
    host: Option<Seq<char>>,
    port: Option<u16>,
    path: Option<Seq<char>>,
    query: Option<Seq<u8>>,
    fragment: Option<Seq<char>>,
) -> Result<URLView, Seq<char>> {
    let h = or_empty(host);
    let sc = if h.len() == 0 {
        or_empty(scheme)
    } else {
        match scheme {
            Some(x) => x,
            None => "http"@,
        }
    };
    let p = match path {
        Some(x) => x,
        None => "/"@,
    };
    let relative = h.len() == 0 && sc.len() == 0;
    match component_error(path, query, fragment) {
        Some(m) => Err(m),
        None => if sc.len() > 0 && !scheme_chars_ok(sc) {
            Err("Invalid URL component 'scheme'"@)
        } else if h.len() > 0 && p.len() > 0 && !starts_with(p, "/"@) {
            Err("For absolute URLs, path must be empty or begin with '/'"@)
        } else if relative && starts_with(p, "//"@) {
            Err("Relative URLs cannot have a path starting with '//'"@)
        } else if relative && starts_with(p, ":"@) {
            Err("Relative URLs cannot have a path starting with ':'"@)
        } else {
            finish_case(sc, h, port, p, query, or_empty(fragment))
        },
    }
}

fn components_string(
    scheme: &str,
    host: &str,
    port: Option<u16>,
    path: &str,
    query: Option<&[u8]>,
    fragment: &str,
) -> (r: String)
    ensures
        r@ == components_text(scheme@, host@, port, path@, opt_bytes(query), fragment@),
{
    let mut r = base_string(scheme, host);
    match port {
        Some(n) => {
            push_str(&mut r, ":");
            crate::text::push_decimal(&mut r, n as u64);
        },
        None => {},
    }
    push_str(&mut r, path);
    match query {
        Some(q) => {
            let qs = lossy_text(q);
            if qs.as_str().unicode_len() > 0 {
                push_str(&mut r, "?");
                push_str(&mut r, qs.as_str());
            }
        },
        None => {},
    }
    if fragment.unicode_len() > 0 {
        push_str(&mut r, "#");
        push_str(&mut r, fragment);
    }
    r
}

fn base_string(scheme: &str, host: &str) -> (r: String)
    ensures
        r@ == components_base(scheme@, host@),
{
    let mut r = String::new();
    if host.unicode_len() > 0 || scheme.unicode_len() > 0 {
        let hc = strip_brackets_str(host);
        push_str(&mut r, scheme);
        push_str(&mut r, "://");
        if hc.as_str().unicode_len() > 0 && crate::text::contains_char(hc.as_str(), ':') {
            push_str(&mut r, "[");
            push_str(&mut r, hc.as_str());
            push_str(&mut r, "]");
        } else {
            push_str(&mut r, host);
        }
    }
    r
}

fn finish_components(
    sc: &str,
    h: &str,
    port: Option<u16>,
    p: &str,
    query: Option<&[u8]>,
    frag: &str,
) -> (r: Result<URL, String>)
    ensures
        built(r, finish_case(sc@, h@, port, p@, opt_bytes(query), frag@)),
{
    let us = components_string(sc, h, port, p, query, frag);
    if h.unicode_len() == 0 && sc.unicode_len() == 0 {
        match parse_url("relative://dummy") {
            Err(e) => {
                let mut m = owned("Invalid URL: ");
                push_str(&mut m, e.as_str());
                Err(m)
            },
            Ok(d) => match d.join(us.as_str()) {
                Ok(t) => {
                    let hts = !crate::text::str_eq(t.path(), "/") || str_ends_with(us.as_str(), "/");
                    Ok(URL::assemble(t, owned(frag), hts, false, false, None, Some(owned(p)), None))
                },
                Err(e) => {
                    let mut m = owned("Invalid URL: ");
                    push_str(&mut m, e.as_str());
                    Err(m)
                },
            },
        }
    } else {
        let hc = strip_brackets_str(h);
        let is_ipv6 = hc.as_str().unicode_len() > 0 && crate::text::contains_char(hc.as_str(), ':');
        let original_host = if is_ipv6 || !h.is_ascii() {
            Some(hc)
        } else {
            None
        };
        match parse_url(us.as_str()) {
            Ok(t) => {
                let hts = !crate::text::str_eq(t.path(), "/") || str_ends_with(us.as_str(), "/");
                Ok(URL::assemble(t, owned(frag), hts, false, false, original_host, None, None))
            },
            Err(e) => {
                let mut m = owned("Invalid URL: ");
                push_str(&mut m, e.as_str());
                Err(m)
            },
        }
    }
}

#[verifier::rlimit(40)]
fn build_from_components(
    scheme: Option<&str>,
    host: Option<&str>,
    port: Option<u16>,
    path: Option<&str>,
    query: Option<&[u8]>,
    fragment: Option<&str>,
) -> (r: Result<URL, String>)
    ensures
        built(
            r,
            components_case(
                opt_view(scheme),
                opt_view(host),
                port,
                opt_view(path),
                opt_bytes(query),
                opt_view(fragment),
            ),
        ),
{
    proof {
        reveal_strlit("");
        reveal_strlit("/");
        reveal_strlit("//");
        reveal_strlit(":");
        reveal_strlit("http");
    }
    let h = match host {
        Some(x) => x,
        None => "",
    };
    let sc = if h.unicode_len() == 0 {
        match scheme {
            Some(x) => x,
            None => "",
        }
    } else {
        match scheme {
            Some(x) => x,
            None => "http",
        }
    };
    assert(h@ == or_empty(opt_view(host)));
    match validate_components(path, query, fragment) {
        Err(m) => {
            return Err(m);
        },
        Ok(()) => {},
    }
    if sc.unicode_len() > 0 && !scheme_ok(sc) {
        return Err(owned("Invalid URL component 'scheme'"));
    }
    let p = match path {
        Some(x) => x,
        None => "/",
    };
    let relative = h.unicode_len() == 0 && sc.unicode_len() == 0;
    if h.unicode_len() > 0 && p.unicode_len() > 0 && !str_starts_with(p, "/") {
        return Err(owned("For absolute URLs, path must be empty or begin with '/'"));
    }
    if relative && str_starts_with(p, "//") {
        return Err(owned("Relative URLs cannot have a path starting with '//'"));
    }
    if relative && str_starts_with(p, ":") {
        return Err(owned("Relative URLs cannot have a path starting with ':'"));
    }
    let frag = match fragment {
        Some(f) => f,
        None => "",
    };
    proof {
        // The checked components, as `components_case` names them.
        assert(frag@ == or_empty(opt_view(fragment)));
        assert(p@ == (match opt_view(path) {
            Some(x) => x,
            None => "/"@,
        }));
        assert(sc@ == (if h@.len() == 0 {
            or_empty(opt_view(scheme))
        } else {
            match opt_view(scheme) {
                Some(x) => x,
                None => "http"@,
            }
        }));
        assert(component_error(opt_view(path), opt_bytes(query), opt_view(fragment)) is None);
        assert(!(sc@.len() > 0 && !scheme_chars_ok(sc@)));
    }
    finish_components(sc, h, port, p, query, frag)
}

// ----- every form --------------------------------------------------------------

/// A URL from its text, or from its components when there is no text.
pub open spec fn spec_new_impl(
    url: Option<Seq<char>>,
    scheme: Option<Seq<char>>,
    host: Option<Seq<char>>,
    port: Option<u16>,
    path: Option<Seq<char>>,
    query: Option<Seq<u8>>,
    fragment: Option<Seq<char>>,
    params: Option<Params>,
) -> Result<URLView, Seq<char>> {
    match url {
        Some(s) => match url_text_error(s) {
            Some(m) => Err(m),
            None => if starts_with(s, "://"@) {
                empty_scheme_case(s, params)
            } else if has_empty_authority(s) {
                match empty_host_case(s, params) {
                    Some(r) => r,
                    None => normal_case(s, params),
                }
            } else {
                normal_case(s, params)
            },
        },
        None => components_case(scheme, host, port, path, query, fragment),
    }
}

impl URL {
    /// Builds a URL from its text (checked, with its special forms, and the
    /// parameters as its query), or else from its components.  The user
    /// name, password, netloc and raw path given here are not used.
    pub fn new_impl(
        url: Option<&str>,
        scheme: Option<&str>,
        host: Option<&str>,
        port: Option<u16>,
        path: Option<&str>,
        query: Option<&[u8]>,
        fragment: Option<&str>,
        username: Option<&str>,
        password: Option<&str>,
        params: Option<&QueryParams>,
        netloc: Option<&[u8]>,
        raw_path: Option<&[u8]>,
    ) -> (r: Result<URL, String>)
        ensures
            built(
                r,
                spec_new_impl(
                    opt_view(url),
                    opt_view(scheme),
                    opt_view(host),
                    port,
                    opt_view(path),
                    opt_bytes(query),
                    opt_view(fragment),
                    params_items(params),
                ),
            ),
    {
        match url {
            Some(s) => {
                match check_url_text(s) {
                    Err(m) => {
                        return Err(m);
                    },
                    Ok(()) => {},
                }
                if str_starts_with(s, "://") {
                    return build_empty_scheme(s, params);
                }
                if empty_authority(s) {
                    proof {
                        if !(find_sub(s@, "://"@) is Some) {
                            assert(ends_with(s@, "://"@));
                            lemma_suffix_found(s@, "://"@);
                        }
                    }
                    match build_empty_host(s, params) {
                        Some(r) => {
                            return r;
                        },
                        None => {},
                    }
                }
                build_normal(s, params)
            },
            None => build_from_components(scheme, host, port, path, query, fragment),
        }
    }

    /// Parses a URL's text.
    pub fn parse(url_str: &str) -> (r: Result<URL, String>)
        ensures
            built(r, spec_new_impl(Some(url_str@), None, None, None, None, None, None, None)),
    {
        URL::new_impl(Some(url_str), None, None, None, None, None, None, None, None, None, None, None)
    }
}

/// A text that ends with a pattern contains it.
pub proof fn lemma_suffix_found(s: Seq<char>, p: Seq<char>)
    requires
        ends_with(s, p),
    ensures
        find_sub(s, p) is Some,
{
    lemma_suffix_found_from(s, p, 0);
}

proof fn lemma_suffix_found_from(s: Seq<char>, p: Seq<char>, i: int)
    requires
        ends_with(s, p),
        0 <= i <= s.len() - p.len(),
    ensures
        find_sub_from(s, p, i) is Some,
    decreases s.len() - p.len() - i,
{
    if !starts_with(s.skip(i), p) {
        if i == s.len() - p.len() {
            assert(s.skip(i).take(p.len() as int) =~= s.skip(s.len() - p.len()));
        } else {
            lemma_suffix_found_from(s, p, i + 1);
        }
    }
}

} // verus!
