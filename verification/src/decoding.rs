//! Response bodies: content-encoding decompression, the charset of a
//! Content-Type, text decoding by encoding name, and the detection and
//! decoding of JSON text in UTF-8, UTF-16 or UTF-32.
use crate::codecs::{
    brotli_decode, deflate_decode, gunzip, gzip_decode, inflate_raw, inflate_zlib, unbrotli,
    unzstd, zlib_decode, zstd_decode,
};
use crate::text::{
    chars_of, concat2, owned, pairs_view, push_char, split_bounds, split_char, str_eq, str_lower, string_of,
    to_lower, trim, trim_bounds, trimmed,
};
use vstd::prelude::*;
use vstd::utf8::{decode_utf8, valid_utf8};

verus! {

// ----- decompression -------------------------------------------------------

/// The body after removing a content encoding: empty data and unknown
/// encodings are returned as they are; "deflate" is tried as raw deflate,
/// then as zlib.
pub open spec fn spec_decompress(data: Seq<u8>, encoding: Seq<char>) -> Option<Seq<u8>> {
    let e = trim(str_lower(encoding));
    if data.len() == 0 {
        Some(data)
    } else if e == "gzip"@ {
        gunzip(data)
    } else if e == "deflate"@ {
        match inflate_raw(data) {
            Some(d) => Some(d),
            None => inflate_zlib(data),
        }
    } else if e == "br"@ {
        unbrotli(data)
    } else if e == "zstd"@ {
        unzstd(data)
    } else {
        Some(data)
    }
}

/// Law: each supported content encoding is removed by its own decoder: for
/// a non-empty body and the encoding name lowercased and trimmed, "gzip"
/// gives what the gzip decoder gives, "deflate" what the raw deflate decoder
/// gives or, where that fails, what the zlib decoder gives, "br" what the
/// brotli decoder gives and "zstd" what the zstd decoder gives; an empty
/// body, and a body under any other name ("identity", unknown names), comes
/// back unchanged.
pub proof fn law_decompress_by_encoding(data: Seq<u8>, encoding: Seq<char>)
    ensures
        data.len() == 0 ==> spec_decompress(data, encoding) == Some(data),
        trim(str_lower(encoding)) != "gzip"@ && trim(str_lower(encoding)) != "deflate"@ && trim(
            str_lower(encoding),
        ) != "br"@ && trim(str_lower(encoding)) != "zstd"@ ==> spec_decompress(data, encoding)
            == Some(data),
        data.len() > 0 && trim(str_lower(encoding)) == "gzip"@ ==> spec_decompress(data, encoding)
            == gunzip(data),
        data.len() > 0 && trim(str_lower(encoding)) == "deflate"@ ==> spec_decompress(
            data,
            encoding,
        ) == if inflate_raw(data) is Some {
            inflate_raw(data)
        } else {
            inflate_zlib(data)
        },
        data.len() > 0 && trim(str_lower(encoding)) == "br"@ ==> spec_decompress(data, encoding)
            == unbrotli(data),
        data.len() > 0 && trim(str_lower(encoding)) == "zstd"@ ==> spec_decompress(data, encoding)
            == unzstd(data),
{
    lemma_encoding_names_differ();
}

proof fn lemma_encoding_names_differ()
    ensures
        "gzip"@ != "deflate"@,
        "gzip"@ != "br"@,
        "gzip"@ != "zstd"@,
        "deflate"@ != "br"@,
        "deflate"@ != "zstd"@,
        "br"@ != "zstd"@,
{
    reveal_strlit("gzip");
    reveal_strlit("deflate");
    reveal_strlit("br");
    reveal_strlit("zstd");
    assert("deflate"@.len() == 7);
    assert("br"@.len() == 2);
    assert("gzip"@[0] != "zstd"@[0]);
}

/// The message of a failed decoding of gzip, deflate, br or zstd: "Failed
/// to decode <name> content: " (the name "brotli" for br) and the decoder's
/// text, or for zstd, when its decoder could not even be created, "Failed to
/// create zstd decoder: " and the text.
pub open spec fn failure_text(encoding: Seq<char>, created: bool, text: Seq<char>) -> Seq<char> {
    if encoding == "gzip"@ {
        "Failed to decode gzip content: "@ + text
    } else if encoding == "deflate"@ {
        "Failed to decode deflate content: "@ + text
    } else if encoding == "br"@ {
        "Failed to decode brotli content: "@ + text
    } else if created {
        "Failed to decode zstd content: "@ + text
    } else {
        "Failed to create zstd decoder: "@ + text
    }
}

/// Removes a content encoding; on failure, the message names the encoding
/// and carries the decoder's text.
pub fn decompress(data: &[u8], encoding: &str) -> (r: Result<Vec<u8>, String>)
    ensures
        match spec_decompress(data@, encoding@) {
            Some(d) => r matches Ok(v) && v@ == d,
            None => r matches Err(m) && exists|c: bool, t: Seq<char>|
                #[trigger] failure_text(trim(str_lower(encoding@)), c, t) == m@,
        },
        data@.len() > 0 && trim(str_lower(encoding@)) == "zstd"@ ==> match unzstd(data@) {
            Some(d) => r matches Ok(v) && v@ == d,
            None => r is Err,
        },
        data@.len() > 0 && trim(str_lower(encoding@)) == "gzip"@ ==> match gunzip(data@) {
            Some(d) => r matches Ok(v) && v@ == d,
            None => r is Err,
        },
        data@.len() > 0 && trim(str_lower(encoding@)) == "br"@ ==> match unbrotli(data@) {
            Some(d) => r matches Ok(v) && v@ == d,
            None => r is Err,
        },
{
    proof {
        law_decompress_by_encoding(data@, encoding@);
    }
    if data.len() == 0 {
        return Ok(crate::text::bytes_vec(data));
    }
    let lowered = to_lower(encoding);
    let e = trimmed(lowered.as_str());
    let name = e.as_str();
    if str_eq(name, "gzip") {
        match gzip_decode(data) {
            Ok(v) => Ok(v),
            Err(msg) => {
                let m = concat2("Failed to decode gzip content: ", msg.as_str());
                assert(failure_text(e@, true, msg@) == m@);
                Err(m)
            },
        }
    } else if str_eq(name, "deflate") {
        match deflate_decode(data) {
            Ok(v) => Ok(v),
            Err(_) => match zlib_decode(data) {
                Ok(v) => Ok(v),
                Err(msg) => {
                    let m = concat2("Failed to decode deflate content: ", msg.as_str());
                    assert(failure_text(e@, true, msg@) == m@);
                    Err(m)
                },
            },
        }
    } else if str_eq(name, "br") {
        match brotli_decode(data) {
            Ok(v) => Ok(v),
            Err(msg) => {
                let m = concat2("Failed to decode brotli content: ", msg.as_str());
                assert(failure_text(e@, true, msg@) == m@);
                Err(m)
            },
        }
    } else if str_eq(name, "zstd") {
        match zstd_decode(data) {
            Ok(v) => Ok(v),
            Err((created, msg)) => {
                let m = if created {
                    concat2("Failed to decode zstd content: ", msg.as_str())
                } else {
                    concat2("Failed to create zstd decoder: ", msg.as_str())
                };
                assert(failure_text(e@, created, msg@) == m@);
                Err(m)
            },
        }
    } else {
        Ok(crate::text::bytes_vec(data))
    }
}

// ----- charset -------------------------------------------------------------

/// `s` without leading and trailing copies of `c`.
pub open spec fn strip_both(s: Seq<char>, c: char) -> Seq<char> {
    crate::multipart::strip_char(s, c)
}

/// The charset named by one part of a Content-Type ("charset=..." in any
/// case, quotes removed); an empty charset counts as none.
pub open spec fn charset_of_part(part: Seq<char>) -> Option<Option<Seq<char>>> {
    let p = trim(part);
    if crate::text::starts_with(str_lower(p), "charset="@) && p.len() >= "charset="@.len() {
        let v = strip_both(strip_both(p.skip("charset="@.len() as int), '"'), '\'');
        if v.len() == 0 {
            Some(None)
        } else {
            Some(Some(v))
        }
    } else {
        None
    }
}

/// The charset of the first part that names one.
pub open spec fn charset_from(parts: Seq<Seq<char>>, k: int) -> Option<Seq<char>>
    decreases parts.len() - k,
{
    if k < 0 || k >= parts.len() {
        None
    } else {
        match charset_of_part(parts[k]) {
            Some(found) => found,
            None => charset_from(parts, k + 1),
        }
    }
}

/// The charset named in a Content-Type header value.
pub open spec fn spec_charset(content_type: Seq<char>) -> Option<Seq<char>> {
    charset_from(split_char(content_type, ';'), 0)
}

/// Reads the charset out of a Content-Type value, e.g. "utf-8" from
/// "text/html; charset=utf-8".
pub fn parse_charset_from_content_type(content_type: &str) -> (r: Option<String>)
    ensures
        match spec_charset(content_type@) {
            Some(c) => r matches Some(x) && x@ == c,
            None => r is None,
        },
{
    let cs = chars_of(content_type);
    let parts = split_bounds(cs.as_slice(), ';', 0, cs.len());
    let ghost sp = split_char(content_type@, ';');
    assert(cs@.subrange(0, cs@.len() as int) =~= cs@);
    let mut k: usize = 0;
    while k < parts.len()
        invariant
            k <= parts@.len(),
            parts@.len() == sp.len(),
            sp == split_char(content_type@, ';'),
            cs@ == content_type@,
            forall|q: int|
                0 <= q < parts@.len() ==> 0 <= #[trigger] parts@[q].0 <= parts@[q].1 <= cs@.len()
                    && cs@.subrange(parts@[q].0 as int, parts@[q].1 as int) == sp[q],
            charset_from(sp, 0) == charset_from(sp, k as int),
        decreases parts.len() - k,
    {
        let (s, e) = parts[k];
        let (a, b) = trim_bounds(cs.as_slice(), s, e);
        let piece = string_of(cs.as_slice(), a, b);
        assert(piece@ == trim(sp[k as int]));
        let low = to_lower(piece.as_str());
        if crate::text::str_starts_with(low.as_str(), "charset=") {
            let pcs = chars_of(piece.as_str());
            let skip = chars_of("charset=");
            if skip.len() <= pcs.len() {
                let rest = string_of(pcs.as_slice(), skip.len(), pcs.len());
                assert(pcs@.subrange(skip@.len() as int, pcs@.len() as int) =~= piece@.skip(
                    "charset="@.len() as int,
                ));
                let v1 = crate::multipart::strip_text(rest.as_str(), '"');
                let v2 = crate::multipart::strip_text(v1.as_str(), '\'');
                if v2.as_str().is_empty() {
                    return None;
                }
                return Some(v2);
            }
        }
        assert(charset_from(sp, k as int) == charset_from(sp, k + 1));
        k = k + 1;
    }
    None
}

/// The encoding used for a response's text: one set explicitly, else the
/// Content-Type charset, else the default.
pub open spec fn spec_response_encoding(
    explicit: Option<Seq<char>>,
    content_type: Option<Seq<char>>,
    default: Seq<char>,
) -> Seq<char> {
    match explicit {
        Some(e) => e,
        None => match content_type {
            Some(ct) => match spec_charset(ct) {
                Some(c) => c,
                None => default,
            },
            None => default,
        },
    }
}

/// Chooses the encoding of a response's text.
pub fn response_encoding(explicit: Option<&str>, content_type: Option<&str>, default: &str) -> (r: String)
    ensures
        r@ == spec_response_encoding(
            crate::prepare::opt_str(explicit),
            crate::prepare::opt_str(content_type),
            default@,
        ),
{
    match explicit {
        Some(e) => owned(e),
        None => match content_type {
            Some(ct) => match parse_charset_from_content_type(ct) {
                Some(c) => c,
                None => owned(default),
            },
            None => owned(default),
        },
    }
}

// ----- text decoding -------------------------------------------------------

/// Trusted: `String::from_utf8`, which succeeds exactly on valid UTF-8 and
/// then holds the decoded characters; on failure, the error's text (not
/// stated here).
#[verifier::external_body]
fn utf8_string(bytes: Vec<u8>) -> (r: Result<String, String>)
    ensures
        match r {
            Ok(s) => valid_utf8(bytes@) && s@ == decode_utf8(bytes@),
            Err(_) => !valid_utf8(bytes@),
        },
{
    String::from_utf8(bytes).map_err(|e| e.to_string())
}

/// Each byte read as the character with that code (Latin-1).
pub open spec fn latin1(bs: Seq<u8>) -> Seq<char> {
    bs.map_values(|b: u8| b as char)
}

/// ASCII reading: bytes above 127 become '?'.
pub open spec fn ascii_masked(bs: Seq<u8>) -> Seq<char> {
    bs.map_values(|b: u8| if b > 127 { '?' } else { b as char })
}

/// UTF-8 decoding, when valid.
pub open spec fn utf8_text(bs: Seq<u8>) -> Option<Seq<char>> {
    if valid_utf8(bs) {
        Some(decode_utf8(bs))
    } else {
        None
    }
}

/// The text of a body in an encoding (names compared lowercased): UTF-8 may
/// fail; Latin-1 and ASCII always succeed; other names try UTF-8 and fall
/// back to Latin-1.
pub open spec fn spec_decode_text(content: Seq<u8>, encoding: Seq<char>) -> Option<Seq<char>> {
    let e = str_lower(encoding);
    if e == "utf-8"@ || e == "utf8"@ {
        utf8_text(content)
    } else if e == "latin-1"@ || e == "latin1"@ || e == "iso-8859-1"@ || e == "iso_8859_1"@ {
        Some(latin1(content))
    } else if e == "ascii"@ || e == "us-ascii"@ {
        Some(ascii_masked(content))
    } else {
        match utf8_text(content) {
            Some(t) => Some(t),
            None => Some(latin1(content)),
        }
    }
}

fn latin1_string(bs: &[u8], mask: bool) -> (r: String)
    ensures
        r@ == if mask {
            ascii_masked(bs@)
        } else {
            latin1(bs@)
        },
{
    let mut r = String::new();
    let mut i: usize = 0;
    while i < bs.len()
        invariant
            i <= bs@.len(),
            r@ == if mask {
                ascii_masked(bs@.take(i as int))
            } else {
                latin1(bs@.take(i as int))
            },
        decreases bs.len() - i,
    {
        let b = bs[i];
        let c = if mask && b > 127 {
            '?'
        } else {
            b as char
        };
        push_char(&mut r, c);
        i = i + 1;
        assert(bs@.take(i as int) =~= bs@.take(i - 1).push(b));
        proof {
            if mask {
                assert(r@ =~= ascii_masked(bs@.take(i as int)));
            } else {
                assert(r@ =~= latin1(bs@.take(i as int)));
            }
        }
    }
    assert(bs@.take(bs@.len() as int) =~= bs@);
    r
}

/// Decodes a body's text in the named encoding; `None` when UTF-8 was asked
/// for and the bytes are not valid UTF-8.
pub fn decode_text(content: &[u8], encoding: &str) -> (r: Option<String>)
    ensures
        match spec_decode_text(content@, encoding@) {
            Some(t) => r matches Some(x) && x@ == t,
            None => r is None,
        },
{
    let lowered = to_lower(encoding);
    let e = lowered.as_str();
    if str_eq(e, "utf-8") || str_eq(e, "utf8") {
        utf8_string(crate::text::bytes_vec(content)).ok()
    } else if str_eq(e, "latin-1") || str_eq(e, "latin1") || str_eq(e, "iso-8859-1") || str_eq(
        e,
        "iso_8859_1",
    ) {
        Some(latin1_string(content, false))
    } else if str_eq(e, "ascii") || str_eq(e, "us-ascii") {
        Some(latin1_string(content, true))
    } else {
        match utf8_string(crate::text::bytes_vec(content)) {
            Ok(t) => Some(t),
            Err(_) => Some(latin1_string(content, false)),
        }
    }
}

// ----- JSON text encodings -------------------------------------------------

/// Whether `data` begins with the bytes `p`.
pub open spec fn starts_bytes(data: Seq<u8>, p: Seq<u8>) -> bool {
    p.len() <= data.len() && data.take(p.len() as int) == p
}

/// How many of the first four bytes are zero.
pub open spec fn zeros_in_first_four(d: Seq<u8>) -> int {
    (if d[0] == 0 { 1int } else { 0 }) + (if d[1] == 0 { 1int } else { 0 }) + (if d[2] == 0 {
        1int
    } else {
        0
    }) + (if d[3] == 0 { 1int } else { 0 })
}

/// The Unicode encoding of JSON bytes, told by a byte order mark or by the
/// pattern of zero bytes; `None` for plain UTF-8.
pub enum JsonEncoding {
    Utf32Be,
    Utf32Le,
    Utf16Be,
    Utf16Le,
    Utf8Sig,
}

/// The name of a JSON encoding.
pub open spec fn json_encoding_name(e: JsonEncoding) -> Seq<char> {
    match e {
        JsonEncoding::Utf32Be => "utf-32-be"@,
        JsonEncoding::Utf32Le => "utf-32-le"@,
        JsonEncoding::Utf16Be => "utf-16-be"@,
        JsonEncoding::Utf16Le => "utf-16-le"@,
        JsonEncoding::Utf8Sig => "utf-8-sig"@,
    }
}

/// Detection by zero bytes alone (no byte order mark).
pub open spec fn by_zeros(d: Seq<u8>) -> Option<JsonEncoding> {
    if d.len() >= 4 {
        let z = zeros_in_first_four(d);
        if z == 3 && d[0] == 0 && d[1] == 0 && d[2] == 0 {
            Some(JsonEncoding::Utf32Be)
        } else if z == 3 && d[1] == 0 && d[2] == 0 && d[3] == 0 {
            Some(JsonEncoding::Utf32Le)
        } else if z >= 1 && d[0] == 0 && d[2] == 0 {
            Some(JsonEncoding::Utf16Be)
        } else if z >= 1 && d[1] == 0 && d[3] == 0 {
            Some(JsonEncoding::Utf16Le)
        } else {
            None
        }
    } else if d.len() >= 2 {
        if d[0] == 0 {
            Some(JsonEncoding::Utf16Be)
        } else if d[1] == 0 {
            Some(JsonEncoding::Utf16Le)
        } else {
            None
        }
    } else {
        None
    }
}

/// The byte order marks, UTF-32 before UTF-16.
pub open spec fn by_bom(d: Seq<u8>) -> Option<JsonEncoding> {
    if starts_bytes(d, seq![0u8, 0u8, 0xfeu8, 0xffu8]) {
        Some(JsonEncoding::Utf32Be)
    } else if starts_bytes(d, seq![0xffu8, 0xfeu8, 0u8, 0u8]) {
        Some(JsonEncoding::Utf32Le)
    } else if starts_bytes(d, seq![0xfeu8, 0xffu8]) {
        Some(JsonEncoding::Utf16Be)
    } else if starts_bytes(d, seq![0xffu8, 0xfeu8]) {
        Some(JsonEncoding::Utf16Le)
    } else if starts_bytes(d, seq![0xefu8, 0xbbu8, 0xbfu8]) {
        Some(JsonEncoding::Utf8Sig)
    } else {
        None
    }
}

/// The encoding that `guess_json_utf` reports.
pub open spec fn spec_guess_json_utf(d: Seq<u8>) -> Option<JsonEncoding> {
    if d.len() < 2 {
        None
    } else {
        match by_bom(d) {
            Some(e) => Some(e),
            None => by_zeros(d),
        }
    }
}

fn starts_with_bytes(d: &[u8], p: &[u8]) -> (r: bool)
    ensures
        r == starts_bytes(d@, p@),
{
    if p.len() > d.len() {
        return false;
    }
    let mut i: usize = 0;
    while i < p.len()
        invariant
            p@.len() <= d@.len(),
            i <= p@.len(),
            forall|j: int| 0 <= j < i ==> d@[j] == p@[j],
        decreases p.len() - i,
    {
        if d[i] != p[i] {
            assert(d@.take(p@.len() as int)[i as int] != p@[i as int]);
            return false;
        }
        i = i + 1;
    }
    assert(d@.take(p@.len() as int) =~= p@);
    true
}

fn detect_bom(d: &[u8]) -> (r: Option<JsonEncoding>)
    ensures
        r == by_bom(d@),
{
    let b32be: [u8; 4] = [0, 0, 0xfe, 0xff];
    let b32le: [u8; 4] = [0xff, 0xfe, 0, 0];
    let b16be: [u8; 2] = [0xfe, 0xff];
    let b16le: [u8; 2] = [0xff, 0xfe];
    let b8: [u8; 3] = [0xef, 0xbb, 0xbf];
    assert(b32be@ =~= seq![0u8, 0u8, 0xfeu8, 0xffu8]);
    assert(b32le@ =~= seq![0xffu8, 0xfeu8, 0u8, 0u8]);
    assert(b16be@ =~= seq![0xfeu8, 0xffu8]);
    assert(b16le@ =~= seq![0xffu8, 0xfeu8]);
    assert(b8@ =~= seq![0xefu8, 0xbbu8, 0xbfu8]);
    if starts_with_bytes(d, b32be.as_slice()) {
        Some(JsonEncoding::Utf32Be)
    } else if starts_with_bytes(d, b32le.as_slice()) {
        Some(JsonEncoding::Utf32Le)
    } else if starts_with_bytes(d, b16be.as_slice()) {
        Some(JsonEncoding::Utf16Be)
    } else if starts_with_bytes(d, b16le.as_slice()) {
        Some(JsonEncoding::Utf16Le)
    } else if starts_with_bytes(d, b8.as_slice()) {
        Some(JsonEncoding::Utf8Sig)
    } else {
        None
    }
}

fn detect_zeros(d: &[u8]) -> (r: Option<JsonEncoding>)
    ensures
        r == by_zeros(d@),
{
    if d.len() >= 4 {
        let z: u8 = (if d[0] == 0 { 1u8 } else { 0 }) + (if d[1] == 0 { 1u8 } else { 0 }) + (if d[2]
            == 0 {
            1u8
        } else {
            0
        }) + (if d[3] == 0 { 1u8 } else { 0 });
        if z == 3 && d[0] == 0 && d[1] == 0 && d[2] == 0 {
            Some(JsonEncoding::Utf32Be)
        } else if z == 3 && d[1] == 0 && d[2] == 0 && d[3] == 0 {
            Some(JsonEncoding::Utf32Le)
        } else if z >= 1 && d[0] == 0 && d[2] == 0 {
            Some(JsonEncoding::Utf16Be)
        } else if z >= 1 && d[1] == 0 && d[3] == 0 {
            Some(JsonEncoding::Utf16Le)
        } else {
            None
        }
    } else if d.len() >= 2 {
        if d[0] == 0 {
            Some(JsonEncoding::Utf16Be)
        } else if d[1] == 0 {
            Some(JsonEncoding::Utf16Le)
        } else {
            None
        }
    } else {
        None
    }
}

/// The encoding of JSON bytes by byte order mark or zero-byte pattern.
pub fn guess_json_encoding(data: &[u8]) -> (r: Option<JsonEncoding>)
    ensures
        r == spec_guess_json_utf(data@),
{
    if data.len() < 2 {
        return None;
    }
    match detect_bom(data) {
        Some(e) => Some(e),
        None => detect_zeros(data),
    }
}

/// The name of the encoding of JSON bytes (e.g. "utf-16-be"), or `None` for
/// plain UTF-8.
pub fn guess_json_utf(data: &[u8]) -> (r: Option<String>)
    ensures
        match spec_guess_json_utf(data@) {
            Some(e) => r matches Some(x) && x@ == json_encoding_name(e),
            None => r is None,
        },
{
    match guess_json_encoding(data) {
        Some(JsonEncoding::Utf32Be) => Some(owned("utf-32-be")),
        Some(JsonEncoding::Utf32Le) => Some(owned("utf-32-le")),
        Some(JsonEncoding::Utf16Be) => Some(owned("utf-16-be")),
        Some(JsonEncoding::Utf16Le) => Some(owned("utf-16-le")),
        Some(JsonEncoding::Utf8Sig) => Some(owned("utf-8-sig")),
        None => None,
    }
}

/// Whether a code point is a Unicode scalar value (a `char`).
pub open spec fn is_scalar(cp: u32) -> bool {
    cp < 0xD800 || (0xE000 <= cp && cp <= 0x10FFFF)
}

/// Trusted: `char::from_u32`, which gives the character with the code point
/// exactly when the code point is a Unicode scalar value.
#[verifier::external_body]
fn char_from_u32(cp: u32) -> (r: Option<char>)
    ensures
        match r {
            Some(c) => is_scalar(cp) && c as u32 == cp,
            None => !is_scalar(cp),
        },
{
    char::from_u32(cp)
}

/// The code points of a text.
pub open spec fn points(t: Seq<char>) -> Seq<u32> {
    t.map_values(|c: char| c as u32)
}

/// The `i`-th 16-bit unit of the bytes, big- or little-endian.
pub open spec fn unit16(d: Seq<u8>, i: int, big_endian: bool) -> u32 {
    if big_endian {
        (d[2 * i] * 256 + d[2 * i + 1]) as u32
    } else {
        (d[2 * i + 1] * 256 + d[2 * i]) as u32
    }
}

/// The 16-bit units of the bytes.
pub open spec fn units16(d: Seq<u8>, big_endian: bool) -> Seq<u32> {
    Seq::new(d.len() / 2, |i: int| unit16(d, i, big_endian))
}

/// The code points that UTF-16 units stand for: surrogate pairs combine;
/// `None` when a surrogate is unpaired.
pub open spec fn utf16_points(u: Seq<u32>) -> Option<Seq<u32>>
    decreases u.len(),
{
    if u.len() == 0 {
        Some(Seq::empty())
    } else if u[0] < 0xD800 || u[0] >= 0xE000 {
        match utf16_points(u.drop_first()) {
            Some(r) => Some(seq![u[0]] + r),
            None => None,
        }
    } else if u[0] < 0xDC00 && u.len() >= 2 && 0xDC00 <= u[1] && u[1] < 0xE000 {
        match utf16_points(u.skip(2)) {
            Some(r) => Some(seq![(0x10000 + (u[0] - 0xD800) * 0x400 + (u[1] - 0xDC00)) as u32] + r),
            None => None,
        }
    } else {
        None
    }
}

/// The text of UTF-16 bytes: `None` for an odd number of bytes or an
/// unpaired surrogate.
pub open spec fn utf16_text_points(d: Seq<u8>, big_endian: bool) -> Option<Seq<u32>> {
    if d.len() % 2 != 0 {
        None
    } else {
        utf16_points(units16(d, big_endian))
    }
}

/// Decodes UTF-16 bytes.
pub fn decode_utf16(data: &[u8], big_endian: bool) -> (r: Result<String, String>)
    ensures
        match utf16_text_points(data@, big_endian) {
            Some(p) => r matches Ok(s) && points(s@) == p,
            None => r is Err,
        },
{
    if data.len() % 2 != 0 {
        return Err(owned("Invalid UTF-16 data: odd number of bytes"));
    }
    let n = data.len() / 2;
    assert(2 * n == data@.len()) by (nonlinear_arith)
        requires
            n == data@.len() / 2,
            data@.len() % 2 == 0,
    ;
    let ghost u = units16(data@, big_endian);
    let dl = data.len();
    let mut units: Vec<u32> = Vec::new();
    let mut k: usize = 0;
    while k < n
        invariant
            k <= n,
            n == data@.len() / 2,
            2 * n == dl,
            dl == data@.len(),
            data@.len() % 2 == 0,
            u == units16(data@, big_endian),
            units@ == u.take(k as int),
            forall|j: int| 0 <= j < k ==> #[trigger] units@[j] < 0x10000,
        decreases n - k,
    {
        let a = data[2 * k] as u32;
        let b = data[2 * k + 1] as u32;
        let v = if big_endian {
            a * 256 + b
        } else {
            b * 256 + a
        };
        units.push(v);
        k = k + 1;
        assert(units@ =~= u.take(k as int));
    }
    assert(u.take(n as int) =~= u);
    let mut out = String::new();
    let ghost mut acc: Seq<u32> = Seq::empty();
    let mut i: usize = 0;
    while i < units.len()
        invariant
            i <= units@.len(),
            units@ == u,
            u == units16(data@, big_endian),
            data@.len() % 2 == 0,
            forall|j: int| 0 <= j < units@.len() ==> #[trigger] units@[j] < 0x10000,
            points(out@) == acc,
            utf16_points(u) == match utf16_points(u.skip(i as int)) {
                Some(r) => Some(acc + r),
                None => None::<Seq<u32>>,
            },
        decreases units.len() - i,
    {
        let w = units[i];
        assert(u.skip(i as int)[0] == w);
        if w < 0xD800 || w >= 0xE000 {
            assert(u.skip(i as int).drop_first() =~= u.skip(i + 1));
            match char_from_u32(w) {
                Some(c) => {
                    let ghost prev = out@;
                    push_char(&mut out, c);
                    assert(out@ == prev.push(c));
                    proof {
                        acc = acc.push(w);
                        assert(points(out@) =~= acc);
                        match utf16_points(u.skip(i + 1)) {
                            Some(r) => {
                                assert(seq![w] + r =~= seq![w] + r);
                                assert(acc.drop_last() + (seq![w] + r) =~= acc + r);
                            },
                            None => {},
                        }
                    }
                    i = i + 1;
                },
                None => {
                    assert(units@[i as int] < 0x10000);
                    assert(false);
                    return Err(owned("invalid utf-16: lone surrogate found"));
                },
            }
        } else if w < 0xDC00 && i + 1 < units.len() && 0xDC00 <= units[i + 1] && units[i + 1]
            < 0xE000 {
            let w2 = units[i + 1];
            assert(u.skip(i as int)[1] == w2);
            assert(u.skip(i as int).skip(2) =~= u.skip(i + 2));
            let cp: u32 = 0x10000 + (w - 0xD800) * 0x400 + (w2 - 0xDC00);
            match char_from_u32(cp) {
                Some(c) => {
                    let ghost prev = out@;
                    push_char(&mut out, c);
                    assert(out@ == prev.push(c));
                    proof {
                        acc = acc.push(cp);
                        assert(points(out@) =~= acc);
                        match utf16_points(u.skip(i + 2)) {
                            Some(r) => {
                                assert(acc.drop_last() + (seq![cp] + r) =~= acc + r);
                            },
                            None => {},
                        }
                    }
                    i = i + 2;
                },
                None => {
                    assert(false);
                    return Err(owned("invalid utf-16: lone surrogate found"));
                },
            }
        } else {
            assert(u.skip(i as int).len() == units@.len() - i);
            if i + 1 < units.len() {
                assert(u.skip(i as int)[1] == units@[i + 1]);
            }
            assert(utf16_points(u.skip(i as int)) is None);
            return Err(owned("invalid utf-16: lone surrogate found"));
        }
    }
    assert(u.skip(i as int) =~= Seq::<u32>::empty());
    assert(acc + Seq::<u32>::empty() =~= acc);
    Ok(out)
}

/// The `i`-th 32-bit unit of the bytes.
pub open spec fn unit32(d: Seq<u8>, i: int, big_endian: bool) -> u32 {
    if big_endian {
        (d[4 * i] * 0x1000000 + d[4 * i + 1] * 0x10000 + d[4 * i + 2] * 0x100 + d[4 * i + 3]) as u32
    } else {
        (d[4 * i + 3] * 0x1000000 + d[4 * i + 2] * 0x10000 + d[4 * i + 1] * 0x100 + d[4 * i]) as u32
    }
}

/// UTF-32 bytes after the byte order mark of the given endianness, if any.
pub open spec fn utf32_body(d: Seq<u8>, big_endian: bool) -> Seq<u8> {
    if big_endian && starts_bytes(d, seq![0u8, 0u8, 0xfeu8, 0xffu8]) {
        d.skip(4)
    } else if !big_endian && starts_bytes(d, seq![0xffu8, 0xfeu8, 0u8, 0u8]) {
        d.skip(4)
    } else {
        d
    }
}

/// The code points of UTF-32 bytes: `None` when the length is not a multiple
/// of four or a unit is not a Unicode scalar value.
pub open spec fn utf32_text_points(d: Seq<u8>, big_endian: bool) -> Option<Seq<u32>> {
    let b = utf32_body(d, big_endian);
    let p = Seq::new(b.len() / 4, |i: int| unit32(b, i, big_endian));
    if b.len() % 4 != 0 {
        None
    } else if forall|i: int| 0 <= i < p.len() ==> is_scalar(#[trigger] p[i]) {
        Some(p)
    } else {
        None
    }
}

/// Decodes UTF-32 bytes (a byte order mark of the same endianness is
/// skipped).
#[verifier::spinoff_prover]
#[verifier::rlimit(40)]
pub fn decode_utf32(data: &[u8], big_endian: bool) -> (r: Result<String, String>)
    ensures
        match utf32_text_points(data@, big_endian) {
            Some(p) => r matches Ok(s) && points(s@) == p,
            None => r is Err,
        },
{
    let b32be: [u8; 4] = [0, 0, 0xfe, 0xff];
    let b32le: [u8; 4] = [0xff, 0xfe, 0, 0];
    assert(b32be@ =~= seq![0u8, 0u8, 0xfeu8, 0xffu8]);
    assert(b32le@ =~= seq![0xffu8, 0xfeu8, 0u8, 0u8]);
    let start: usize = if big_endian && starts_with_bytes(data, b32be.as_slice()) {
        4
    } else if !big_endian && starts_with_bytes(data, b32le.as_slice()) {
        4
    } else {
        0
    };
    let ghost body = utf32_body(data@, big_endian);
    assert(body =~= data@.skip(start as int));
    let len = data.len() - start;
    if len % 4 != 0 {
        return Err(owned("Invalid UTF-32 data: not a multiple of 4 bytes"));
    }
    let n = len / 4;
    let dl = data.len();
    assert(4 * n == len) by (nonlinear_arith)
        requires
            n == len / 4,
            len % 4 == 0,
    ;
    let ghost p = Seq::new(body.len() / 4, |i: int| unit32(body, i, big_endian));
    let mut out = String::new();
    let mut k: usize = 0;
    while k < n
        invariant
            k <= n,
            start + 4 * n == dl,
            dl == data@.len(),
            body == data@.skip(start as int),
            body == utf32_body(data@, big_endian),
            body.len() % 4 == 0,
            p == Seq::new(body.len() / 4, |i: int| unit32(body, i, big_endian)),
            points(out@) == p.take(k as int),
            forall|i: int| 0 <= i < k ==> is_scalar(#[trigger] p[i]),
        decreases n - k,
    {
        let o = start + 4 * k;
        let b0 = data[o] as u32;
        let b1 = data[o + 1] as u32;
        let b2 = data[o + 2] as u32;
        let b3 = data[o + 3] as u32;
        let cp = if big_endian {
            b0 * 0x1000000 + b1 * 0x10000 + b2 * 0x100 + b3
        } else {
            b3 * 0x1000000 + b2 * 0x10000 + b1 * 0x100 + b0
        };
        assert(cp == p[k as int]);
        match char_from_u32(cp) {
            Some(c) => {
                let ghost prev = out@;
                push_char(&mut out, c);
                assert(out@ == prev.push(c));
                assert(points(out@) =~= points(prev).push(cp));
                assert(p.take(k + 1) =~= p.take(k as int).push(p[k as int]));
                k = k + 1;
            },
            None => {
                assert(!is_scalar(p[k as int]));
                return Err(concat2("Invalid UTF-32 code point: ", crate::text::decimal_string(cp as u64).as_str()));
            },
        }
    }
    assert(p.take(n as int) =~= p);
    Ok(out)
}

/// The text of JSON bytes as `decode_json_bytes` reads it: byte order marks
/// and zero-byte patterns select UTF-32 or UTF-16 (the UTF-16 marks are
/// skipped, the UTF-32 ones by the decoder); a UTF-8 mark is skipped;
/// otherwise UTF-8.
pub open spec fn spec_json_points(d: Seq<u8>) -> Option<Seq<u32>> {
    match by_bom(d) {
        Some(JsonEncoding::Utf32Be) => utf32_text_points(d, true),
        Some(JsonEncoding::Utf32Le) => utf32_text_points(d, false),
        Some(JsonEncoding::Utf16Be) => utf16_text_points(d.skip(2), true),
        Some(JsonEncoding::Utf16Le) => utf16_text_points(d.skip(2), false),
        Some(JsonEncoding::Utf8Sig) => match utf8_text(d.skip(3)) {
            Some(t) => Some(points(t)),
            None => None,
        },
        None => match by_zeros(d) {
            Some(JsonEncoding::Utf32Be) => utf32_text_points(d, true),
            Some(JsonEncoding::Utf32Le) => utf32_text_points(d, false),
            Some(JsonEncoding::Utf16Be) => utf16_text_points(d, true),
            Some(JsonEncoding::Utf16Le) => utf16_text_points(d, false),
            _ => match utf8_text(d) {
                Some(t) => Some(points(t)),
                None => None,
            },
        },
    }
}

fn utf8_points(bytes: Vec<u8>) -> (r: Result<String, String>)
    ensures
        match utf8_text(bytes@) {
            Some(t) => r matches Ok(s) && points(s@) == points(t),
            None => r is Err,
        },
{
    match utf8_string(bytes) {
        Ok(s) => Ok(s),
        Err(e) => Err(concat2("UTF-8 decode error: ", e.as_str())),
    }
}

fn tail(data: &[u8], from: usize) -> (r: Vec<u8>)
    requires
        from <= data@.len(),
    ensures
        r@ == data@.skip(from as int),
{
    let mut v: Vec<u8> = Vec::new();
    let mut i = from;
    while i < data.len()
        invariant
            from <= i <= data@.len(),
            v@ == data@.subrange(from as int, i as int),
        decreases data.len() - i,
    {
        v.push(data[i]);
        i = i + 1;
        assert(v@ =~= data@.subrange(from as int, i as int));
    }
    assert(data@.subrange(from as int, data@.len() as int) =~= data@.skip(from as int));
    v
}

/// Decodes JSON bytes to text in the encoding that their byte order mark or
/// zero-byte pattern shows.
pub fn decode_json_bytes(data: &[u8]) -> (r: Result<String, String>)
    ensures
        match spec_json_points(data@) {
            Some(p) => r matches Ok(s) && points(s@) == p,
            None => r is Err,
        },
{
    match detect_bom(data) {
        Some(JsonEncoding::Utf32Be) => decode_utf32(data, true),
        Some(JsonEncoding::Utf32Le) => decode_utf32(data, false),
        Some(JsonEncoding::Utf16Be) => decode_utf16(tail(data, 2).as_slice(), true),
        Some(JsonEncoding::Utf16Le) => decode_utf16(tail(data, 2).as_slice(), false),
        Some(JsonEncoding::Utf8Sig) => utf8_points(tail(data, 3)),
        None => match detect_zeros(data) {
            Some(JsonEncoding::Utf32Be) => decode_utf32(data, true),
            Some(JsonEncoding::Utf32Le) => decode_utf32(data, false),
            Some(JsonEncoding::Utf16Be) => decode_utf16(data, true),
            Some(JsonEncoding::Utf16Le) => decode_utf16(data, false),
            _ => utf8_points(crate::text::bytes_vec(data)),
        },
    }
}

/// Code points without a leading byte order mark (U+FEFF).
pub open spec fn strip_bom_points(p: Seq<u32>) -> Seq<u32> {
    if p.len() > 0 && p[0] == 0xFEFFu32 {
        p.drop_first()
    } else {
        p
    }
}

/// The JSON text of a body: its bytes decoded as `decode_json_bytes` does,
/// without a leading byte order mark; empty content is an error.
pub fn json_text_from_bytes(data: &[u8]) -> (r: Result<String, String>)
    ensures
        data@.len() == 0 ==> r is Err,
        data@.len() > 0 ==> match spec_json_points(data@) {
            Some(p) => r matches Ok(s) && points(s@) == strip_bom_points(p),
            None => r is Err,
        },
{
    if data.len() == 0 {
        return Err(owned("JSON parse error: empty content"));
    }
    match decode_json_bytes(data) {
        Ok(text) => {
            let cs = chars_of(text.as_str());
            if cs.len() > 0 && cs[0] as u32 == 0xFEFFu32 {
                let rest = string_of(cs.as_slice(), 1, cs.len());
                assert(points(rest@) =~= points(text@).drop_first());
                Ok(rest)
            } else {
                proof {
                    if points(text@).len() > 0 {
                        assert(points(text@)[0] == text@[0] as u32);
                    }
                }
                Ok(text)
            }
        },
        Err(e) => Err(e),
    }
}

// ----- Link headers --------------------------------------------------------

/// A link's parameters, by name.
pub type LinkData = Seq<(Seq<char>, Seq<char>)>;

/// One "name=value" parameter of a link: the name trimmed and lowercased,
/// the value trimmed with quotes and apostrophes stripped; later ones
/// overwrite earlier ones.  Empty parameters and ones without "=" are
/// skipped.
pub open spec fn link_param(data: LinkData, param: Seq<char>) -> LinkData {
    let p = trim(param);
    if p.len() == 0 {
        data
    } else {
        match crate::text::find_char(p, '=') {
            Some(i) => crate::ci_headers::put(
                data,
                str_lower(trim(p.take(i))),
                strip_both(strip_both(trim(p.skip(i + 1)), '"'), '\''),
            ),
            None => data,
        }
    }
}

/// All parameters of a link, in order.
pub open spec fn link_params(data: LinkData, params: Seq<Seq<char>>) -> LinkData
    decreases params.len(),
{
    if params.len() == 0 {
        data
    } else {
        link_param(link_params(data, params.drop_last()), params.last())
    }
}

/// One link: "<url>" then parameters after ";"; keyed by its "rel"
/// parameter, else by its URL.  Not a link unless the first part starts
/// with "<" and holds a ">".
pub open spec fn parse_link(link: Seq<char>) -> Option<(Seq<char>, LinkData)> {
    let l = trim(link);
    if l.len() == 0 {
        None
    } else {
        let parts = split_char(l, ';');
        let up = trim(parts[0]);
        if up.len() > 0 && up[0] == '<' {
            match crate::text::find_char(up, '>') {
                Some(e) => {
                    let url = up.subrange(1, e);
                    let data = link_params(seq![("url"@, url)], parts.drop_first());
                    let key = match crate::ci_headers::lookup(data, "rel"@) {
                        Some(r) => r,
                        None => url,
                    };
                    Some((key, data))
                },
                None => None,
            }
        } else {
            None
        }
    }
}

/// The links of comma-separated link texts; a later link with the same key
/// replaces an earlier one.
pub open spec fn links_from(links: Seq<Seq<char>>) -> Seq<(Seq<char>, LinkData)>
    decreases links.len(),
{
    if links.len() == 0 {
        Seq::empty()
    } else {
        let acc = links_from(links.drop_last());
        match parse_link(links.last()) {
            Some((k, d)) => crate::ci_headers::put(acc, k, d),
            None => acc,
        }
    }
}

/// The links of a Link header value.
pub open spec fn spec_links(header: Option<Seq<char>>) -> Seq<(Seq<char>, LinkData)> {
    match header {
        Some(h) => links_from(split_char(h, ',')),
        None => Seq::empty(),
    }
}

/// Plain view of parsed links.
pub open spec fn links_view(v: Seq<(String, Vec<(String, String)>)>) -> Seq<(Seq<char>, LinkData)> {
    v.map_values(|e: (String, Vec<(String, String)>)| (e.0@, pairs_view(e.1@)))
}

fn put_link(v: &mut Vec<(String, Vec<(String, String)>)>, k: String, d: Vec<(String, String)>)
    ensures
        links_view(final(v)@) == crate::ci_headers::put(links_view(old(v)@), k@, pairs_view(d@)),
{
    let ghost s = links_view(v@);
    let mut i: usize = 0;
    while i < v.len()
        invariant
            i <= v@.len(),
            s == links_view(v@),
            v@ == old(v)@,
            forall|j: int| 0 <= j < i ==> #[trigger] s[j].0 != k@,
        decreases v.len() - i,
    {
        if str_eq(v[i].0.as_str(), k.as_str()) {
            assert(s[i as int].0 == k@);
            proof {
                crate::ci_headers::lemma_key_index_at(s, k@, i as int);
            }
            v.set(i, (k, d));
            assert(links_view(v@) =~= s.update(i as int, (k@, pairs_view(d@))));
            return;
        }
        i = i + 1;
    }
    proof {
        crate::ci_headers::lemma_key_index_at(s, k@, s.len() as int);
    }
    v.push((k, d));
    assert(links_view(v@) =~= s.push((k@, pairs_view(d@))));
}

fn lookup_pairs(v: &Vec<(String, String)>, k: &str) -> (r: Option<String>)
    ensures
        match crate::ci_headers::lookup(pairs_view(v@), k@) {
            Some(x) => r matches Some(y) && y@ == x,
            None => r is None,
        },
{
    match crate::ci_headers::position(v, k) {
        Some(i) => Some(v[i].1.clone()),
        None => None,
    }
}

/// The name and value of a "name=value" parameter (both trimmed, the value
/// with quotes and apostrophes stripped).
fn param_key_value(p: &str) -> (r: Option<(String, String)>)
    ensures
        match crate::text::find_char(p@, '=') {
            Some(i) => r matches Some(x) && x.0@ == trim(p@.take(i)) && x.1@ == strip_both(
                strip_both(trim(p@.skip(i + 1)), '"'),
                '\'',
            ),
            None => r is None,
        },
{
    let cs = chars_of(p);
    let n = cs.len();
    let eq = crate::text::find_from(cs.as_slice(), '=', 0, n);
    assert(cs@.subrange(0, n as int) =~= p@);
    if eq < n {
        let (ka, kb) = trim_bounds(cs.as_slice(), 0, eq);
        let (va, vb) = trim_bounds(cs.as_slice(), eq + 1, n);
        assert(cs@.subrange(0, eq as int) =~= p@.take(eq as int));
        assert(cs@.subrange(eq + 1, n as int) =~= p@.skip(eq + 1));
        let key = string_of(cs.as_slice(), ka, kb);
        let value = string_of(cs.as_slice(), va, vb);
        let v1 = crate::multipart::strip_text(value.as_str(), '"');
        let v2 = crate::multipart::strip_text(v1.as_str(), '\'');
        Some((key, v2))
    } else {
        None
    }
}

/// Applies one parameter to a link's data.
fn apply_link_param(data: &mut Vec<(String, String)>, param: &str)
    ensures
        pairs_view(final(data)@) == link_param(pairs_view(old(data)@), param@),
{
    let p = trimmed(param);
    if p.as_str().is_empty() {
        return;
    }
    match param_key_value(p.as_str()) {
        Some((k, v)) => crate::ci_headers::put_pair(data, to_lower(k.as_str()), v),
        None => {},
    }
}

/// Parses one link.
fn parse_one_link(link: &str) -> (r: Option<(String, Vec<(String, String)>)>)
    ensures
        match parse_link(link@) {
            Some((k, d)) => r matches Some(x) && x.0@ == k && pairs_view(x.1@) == d,
            None => r is None,
        },
{
    let l = trimmed(link);
    if l.as_str().is_empty() {
        return None;
    }
    let cs = chars_of(l.as_str());
    let parts = split_bounds(cs.as_slice(), ';', 0, cs.len());
    let ghost sp = split_char(l@, ';');
    assert(cs@.subrange(0, cs@.len() as int) =~= cs@);
    proof {
        crate::text::lemma_split_nonempty(l@, ';');
    }
    let (s0, e0) = parts[0];
    let (a, b) = trim_bounds(cs.as_slice(), s0, e0);
    let up = string_of(cs.as_slice(), a, b);
    assert(up@ == trim(sp[0]));
    let ucs = chars_of(up.as_str());
    if ucs.len() == 0 || ucs[0] != '<' {
        return None;
    }
    let e = crate::text::find_from(ucs.as_slice(), '>', 0, ucs.len());
    assert(ucs@.subrange(0, ucs@.len() as int) =~= ucs@);
    if e == ucs.len() {
        return None;
    }
    let url = string_of(ucs.as_slice(), 1, e);
    let mut data: Vec<(String, String)> = Vec::new();
    data.push((owned("url"), url.clone()));
    assert(pairs_view(data@) =~= seq![("url"@, url@)]);
    let ghost rest = sp.drop_first();
    let mut k: usize = 1;
    while k < parts.len()
        invariant
            1 <= k <= parts@.len(),
            parts@.len() == sp.len(),
            rest == sp.drop_first(),
            forall|q: int|
                0 <= q < parts@.len() ==> 0 <= #[trigger] parts@[q].0 <= parts@[q].1 <= cs@.len()
                    && cs@.subrange(parts@[q].0 as int, parts@[q].1 as int) == sp[q],
            pairs_view(data@) == link_params(seq![("url"@, url@)], rest.take(k - 1)),
        decreases parts.len() - k,
    {
        let (s, t) = parts[k];
        let piece = string_of(cs.as_slice(), s, t);
        assert(piece@ == rest[k - 1]);
        apply_link_param(&mut data, piece.as_str());
        assert(rest.take(k as int).drop_last() =~= rest.take(k - 1));
        k = k + 1;
    }
    assert(rest.take(k - 1) =~= rest);
    let key = match lookup_pairs(&data, "rel") {
        Some(r) => r,
        None => url,
    };
    Some((key, data))
}

/// The links of a response's Link header, keyed by relation (or URL).
pub fn links(link_header: Option<&str>) -> (r: Vec<(String, Vec<(String, String)>)>)
    ensures
        links_view(r@) == spec_links(crate::prepare::opt_str(link_header)),
{
    let mut out: Vec<(String, Vec<(String, String)>)> = Vec::new();
    match link_header {
        None => {
            assert(links_view(out@) =~= Seq::<(Seq<char>, LinkData)>::empty());
        },
        Some(h) => {
            let cs = chars_of(h);
            let parts = split_bounds(cs.as_slice(), ',', 0, cs.len());
            let ghost sp = split_char(h@, ',');
            assert(cs@.subrange(0, cs@.len() as int) =~= cs@);
            let mut k: usize = 0;
            while k < parts.len()
                invariant
                    k <= parts@.len(),
                    parts@.len() == sp.len(),
                    forall|q: int|
                        0 <= q < parts@.len() ==> 0 <= #[trigger] parts@[q].0 <= parts@[q].1
                            <= cs@.len() && cs@.subrange(parts@[q].0 as int, parts@[q].1 as int)
                            == sp[q],
                    links_view(out@) == links_from(sp.take(k as int)),
                decreases parts.len() - k,
            {
                let (s, t) = parts[k];
                let piece = string_of(cs.as_slice(), s, t);
                assert(sp.take(k + 1).drop_last() =~= sp.take(k as int));
                match parse_one_link(piece.as_str()) {
                    Some((key, data)) => put_link(&mut out, key, data),
                    None => {},
                }
                k = k + 1;
            }
            assert(sp.take(k as int) =~= sp);
        },
    }
    out
}

/// The text of header bytes and how it was read: ASCII when every byte is
/// below 128, else UTF-8 when valid, else Latin-1.
pub open spec fn spec_header_text(bs: Seq<u8>) -> (Seq<char>, crate::headers::HeaderEncoding) {
    if forall|i: int| 0 <= i < bs.len() ==> #[trigger] bs[i] < 128 {
        (latin1(bs), crate::headers::HeaderEncoding::Ascii)
    } else if valid_utf8(bs) {
        (decode_utf8(bs), crate::headers::HeaderEncoding::Utf8)
    } else {
        (latin1(bs), crate::headers::HeaderEncoding::Latin1)
    }
}

/// Reads header bytes as text, telling which encoding was used.
pub fn decode_header_bytes(bytes: &[u8]) -> (r: (String, crate::headers::HeaderEncoding))
    ensures
        (r.0@, r.1) == spec_header_text(bytes@),
{
    let mut i: usize = 0;
    let mut ascii = true;
    while i < bytes.len()
        invariant
            i <= bytes@.len(),
            ascii == forall|j: int| 0 <= j < i ==> #[trigger] bytes@[j] < 128,
        decreases bytes.len() - i,
    {
        if bytes[i] >= 128 {
            ascii = false;
        }
        i = i + 1;
    }
    if ascii {
        return (latin1_string(bytes, false), crate::headers::HeaderEncoding::Ascii);
    }
    match utf8_string(crate::text::bytes_vec(bytes)) {
        Ok(s) => (s, crate::headers::HeaderEncoding::Utf8),
        Err(_) => (latin1_string(bytes, false), crate::headers::HeaderEncoding::Latin1),
    }
}

} // verus!
