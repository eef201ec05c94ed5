//! The body of a response built by hand: its bytes from content, text, HTML
//! or JSON, and the Content-Length and Content-Type headers that go with
//! them.
use crate::headers::{has_key, set_spec, Headers, Items};
use crate::text::{decimal, decimal_string, enc, owned, str_bytes, str_lower};
use vstd::prelude::*;

verus! {

/// The content a response is given.
pub enum ResponseContent {
    /// Bytes (chunks already joined).
    Bytes(Vec<u8>),
    /// An iterator, read later.
    Stream,
}

/// The view of optional text.
pub open spec fn opt_text(s: Option<&str>) -> Option<Seq<char>> {
    match s {
        Some(t) => Some(t@),
        None => None,
    }
}

/// The response's bytes: the last of JSON, HTML, text and content that is
/// given (a stream gives none yet).
pub open spec fn spec_response_content(
    content: Option<ResponseContent>,
    text: Option<Seq<char>>,
    html: Option<Seq<char>>,
    json: Option<Seq<char>>,
) -> Seq<u8> {
    let c0 = match content {
        Some(ResponseContent::Bytes(b)) => b@,
        _ => Seq::empty(),
    };
    let c1 = match text {
        Some(t) => enc(t),
        None => c0,
    };
    let c2 = match html {
        Some(h) => enc(h),
        None => c1,
    };
    match json {
        Some(j) => enc(j),
        None => c2,
    }
}

/// The headers with a body's length and type set.
pub open spec fn with_typed_body(items: Items, body: Seq<u8>, content_type: Seq<char>) -> Items {
    set_spec(
        set_spec(items, "Content-Length"@, decimal(body.len())),
        "Content-Type"@,
        content_type,
    )
}

/// The response's headers: content sets Content-Length (its byte count, zero
/// for a stream) unless a Content-Length or Transfer-Encoding is there; text,
/// HTML and JSON each set Content-Length and their Content-Type.
pub open spec fn spec_response_headers(
    items: Items,
    content: Option<ResponseContent>,
    text: Option<Seq<char>>,
    html: Option<Seq<char>>,
    json: Option<Seq<char>>,
) -> Items {
    let h0 = match content {
        Some(c) => {
            let n: nat = match c {
                ResponseContent::Bytes(b) => b@.len(),
                ResponseContent::Stream => 0,
            };
            if has_key(items, str_lower("content-length"@)) || has_key(
                items,
                str_lower("transfer-encoding"@),
            ) {
                items
            } else {
                set_spec(items, "Content-Length"@, decimal(n))
            }
        },
        None => items,
    };
    let h1 = match text {
        Some(t) => with_typed_body(h0, enc(t), "text/plain; charset=utf-8"@),
        None => h0,
    };
    let h2 = match html {
        Some(h) => with_typed_body(h1, enc(h), "text/html; charset=utf-8"@),
        None => h1,
    };
    match json {
        Some(j) => with_typed_body(h2, enc(j), "application/json"@),
        None => h2,
    }
}

fn set_typed_body(headers: &mut Headers, body: &Vec<u8>, content_type: &str)
    ensures
        final(headers).items() == with_typed_body(old(headers).items(), body@, content_type@),
{
    headers.set(owned("Content-Length"), decimal_string(body.len() as u64));
    headers.set(owned("Content-Type"), owned(content_type));
}

/// Sets the headers that describe a hand-built response's body and returns
/// its bytes.  The JSON is given as its text.
pub fn response_body(
    headers: &mut Headers,
    content: Option<ResponseContent>,
    text: Option<&str>,
    html: Option<&str>,
    json: Option<&str>,
) -> (r: Vec<u8>)
    ensures
        r@ == spec_response_content(content, opt_text(text), opt_text(html), opt_text(json)),
        final(headers).items() == spec_response_headers(
            old(headers).items(),
            content,
            opt_text(text),
            opt_text(html),
            opt_text(json),
        ),
{
    let ghost c = content;
    let mut body: Vec<u8> = Vec::new();
    match content {
        Some(c) => {
            let n = match &c {
                ResponseContent::Bytes(b) => b.len(),
                ResponseContent::Stream => 0,
            };
            if !headers.contains("content-length") && !headers.contains("transfer-encoding") {
                headers.set(owned("Content-Length"), decimal_string(n as u64));
            }
            match c {
                ResponseContent::Bytes(b) => {
                    body = b;
                },
                ResponseContent::Stream => {},
            }
        },
        None => {},
    }
    match text {
        Some(t) => {
            body = str_bytes(t);
            set_typed_body(headers, &body, "text/plain; charset=utf-8");
        },
        None => {},
    }
    match html {
        Some(h) => {
            body = str_bytes(h);
            set_typed_body(headers, &body, "text/html; charset=utf-8");
        },
        None => {},
    }
    match json {
        Some(j) => {
            body = str_bytes(j);
            set_typed_body(headers, &body, "application/json");
        },
        None => {},
    }
    body
}

} // verus!
