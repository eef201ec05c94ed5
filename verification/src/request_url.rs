//! Checking the URL given for a request: it must be present, name a scheme,
//! parse as a URI and use http or https; credentials written before the host
//! are picked out.
use crate::redirect::{opt_string_view, parse_uri, uri_parsed};
use crate::text::{
    chars_of, find_char, find_sub, first_piece, first_piece_bounds, str_contains, string_of,
};
use vstd::prelude::*;

verus! {

/// Why a request URL is refused.
#[derive(Debug, PartialEq, Eq)]
pub enum UrlCheckError {
    /// No URL was given.
    UrlRequired,
    /// The URL names no scheme.
    MissingSchema,
    /// The scheme is not one the client speaks (the scheme, or the URL when
    /// the parser rejected its scheme).
    InvalidSchema(String),
    /// The URL does not parse (the parser's message).
    InvalidUrl(String),
}

/// The user name and password written before "@" in an authority: the part
/// before the first "@" split at its first ":" (`None` when the authority
/// has no "@", so no user information, or that part has no ":").
pub open spec fn authority_credentials(authority: Option<Seq<char>>) -> Option<(Seq<char>, Seq<char>)> {
    match authority {
        Some(a) => if find_char(a, '@') is None {
            None
        } else {
            let info = first_piece(a, '@');
            match find_char(info, ':') {
                Some(i) => Some((info.take(i), info.skip(i + 1))),
                None => None,
            }
        },
        None => None,
    }
}

/// The credentials of an authority, as the spec above picks them.
fn credentials_of(authority: &Option<String>) -> (r: Option<(String, String)>)
    ensures
        match authority_credentials(opt_string_view(*authority)) {
            Some((u, p)) => r matches Some(x) && x.0@ == u && x.1@ == p,
            None => r is None,
        },
{
    match authority {
        Some(a) => {
            let cs = chars_of(a.as_str());
            let end = first_piece_bounds(cs.as_slice(), '@', 0, cs.len());
            assert(cs@.subrange(0, cs@.len() as int) =~= a@);
            let ghost info = first_piece(a@, '@');
            if end == cs.len() {
                return None;
            }
            let colon = first_piece_bounds(cs.as_slice(), ':', 0, end);
            if colon < end {
                let user = string_of(cs.as_slice(), 0, colon);
                let pass = string_of(cs.as_slice(), colon + 1, end);
                proof {
                    assert(cs@.subrange(0, end as int) == info);
                    assert(user@ =~= info.take(colon as int));
                    assert(pass@ =~= info.skip(colon + 1));
                }
                Some((user, pass))
            } else {
                None
            }
        },
        None => None,
    }
}

/// Checks the URL given for a request and parses it: an empty URL is
/// refused as missing, one without "://" as naming no scheme; a parse
/// failure is an invalid scheme when the parser's message mentions the
/// scheme, else an invalid URL; a scheme other than http or https is
/// refused.  On success, the URI and the credentials written before "@".
pub fn parse_and_validate_url(url: &str) -> (r: Result<(hyper::Uri, Option<(String, String)>), UrlCheckError>)
    ensures
        url@.len() == 0 ==> r == Err::<(hyper::Uri, Option<(String, String)>), UrlCheckError>(
            UrlCheckError::UrlRequired,
        ),
        url@.len() > 0 && find_sub(url@, "://"@) is None ==> r == Err::<
            (hyper::Uri, Option<(String, String)>),
            UrlCheckError,
        >(UrlCheckError::MissingSchema),
        url@.len() > 0 && find_sub(url@, "://"@) is Some ==> match uri_parsed(url@) {
            Err(e) => if find_sub(e, "scheme"@) is Some {
                r matches Err(UrlCheckError::InvalidSchema(s)) && s@ == url@
            } else {
                r matches Err(UrlCheckError::InvalidUrl(m)) && m@ == e
            },
            Ok(t) => match t.1 {
                Some(s) => if s == "http"@ || s == "https"@ {
                    r matches Ok(v) && v.0 == t.0 && match authority_credentials(t.2) {
                        Some((u, p)) => v.1 matches Some(c) && c.0@ == u && c.1@ == p,
                        None => v.1 is None,
                    }
                } else {
                    r matches Err(UrlCheckError::InvalidSchema(x)) && x@ == s
                },
                None => r == Err::<(hyper::Uri, Option<(String, String)>), UrlCheckError>(
                    UrlCheckError::MissingSchema,
                ),
            },
        },
{
    if url.unicode_len() == 0 {
        return Err(UrlCheckError::UrlRequired);
    }
    if !str_contains(url, "://") {
        return Err(UrlCheckError::MissingSchema);
    }
    match parse_uri(url) {
        Err(e) => {
            if str_contains(e.as_str(), "scheme") {
                Err(UrlCheckError::InvalidSchema(crate::text::owned(url)))
            } else {
                Err(UrlCheckError::InvalidUrl(e))
            }
        },
        Ok((u, scheme, authority)) => match scheme {
            Some(s) => {
                if crate::text::str_eq(s.as_str(), "http") || crate::text::str_eq(s.as_str(), "https") {
                    let creds = credentials_of(&authority);
                    Ok((u, creds))
                } else {
                    Err(UrlCheckError::InvalidSchema(s))
                }
            },
            None => Err(UrlCheckError::MissingSchema),
        },
    }
}

} // verus!
