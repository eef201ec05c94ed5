//! Byte and text codecs used by the library, called in their outside crates:
//! percent-encoding, Base64, hex, message digests, content decompression,
//! and the sources of randomness and time.
use crate::text::enc;
use vstd::prelude::*;

verus! {

// ----- percent-encoding ----------------------------------------------------

/// Bytes that percent-encoding leaves alone: ASCII alphanumerics and `-._~`.
pub open spec fn is_unreserved(b: u8) -> bool {
    (48 <= b <= 57) || (65 <= b <= 90) || (97 <= b <= 122) || b == 45 || b == 46 || b == 95
        || b == 126
}

/// Uppercase hexadecimal digit for `d < 16`.
pub open spec fn hex_upper(d: u8) -> char {
    if d < 10 {
        ((48 + d) as u8) as char
    } else {
        ((55 + d) as u8) as char
    }
}

/// Lowercase hexadecimal digit for `d < 16`.
pub open spec fn hex_lower(d: u8) -> char {
    if d < 10 {
        ((48 + d) as u8) as char
    } else {
        ((87 + d) as u8) as char
    }
}

/// Percent-encoding of bytes: unreserved bytes as themselves, every other
/// byte as `%` and two uppercase hex digits.
pub open spec fn percent_encode(bs: Seq<u8>) -> Seq<char>
    decreases bs.len(),
{
    if bs.len() == 0 {
        Seq::empty()
    } else {
        let b = bs[0];
        (if is_unreserved(b) {
            seq![b as char]
        } else {
            seq!['%', hex_upper(b / 16), hex_upper(b % 16)]
        }) + percent_encode(bs.drop_first())
    }
}

/// Value of a hexadecimal digit byte (either case).
pub open spec fn hex_value(b: u8) -> Option<u8> {
    if 48 <= b <= 57 {
        Some((b - 48) as u8)
    } else if 65 <= b <= 70 {
        Some((b - 55) as u8)
    } else if 97 <= b <= 102 {
        Some((b - 87) as u8)
    } else {
        None
    }
}

/// Percent-decoding of bytes: `%` followed by two hex digits becomes the byte
/// they denote; every other byte (a lone `%` included) stays as it is.
pub open spec fn percent_decode(bs: Seq<u8>) -> Seq<u8>
    decreases bs.len(),
{
    if bs.len() == 0 {
        Seq::empty()
    } else if bs[0] == 37 && bs.len() >= 3 && hex_value(bs[1]) is Some && hex_value(
        bs[2],
    ) is Some {
        seq![(hex_value(bs[1]).unwrap() * 16 + hex_value(bs[2]).unwrap()) as u8] + percent_decode(
            bs.skip(3),
        )
    } else {
        seq![bs[0]] + percent_decode(bs.drop_first())
    }
}

/// The text of a percent-decoded string: `None` when the decoded bytes are
/// not valid UTF-8.
pub open spec fn percent_decoded_text(s: Seq<char>) -> Option<Seq<char>> {
    let d = percent_decode(enc(s));
    if vstd::utf8::valid_utf8(d) {
        Some(vstd::utf8::decode_utf8(d))
    } else {
        None
    }
}

/// Trusted: `urlencoding::encode`, which percent-encodes every UTF-8 byte of
/// the text except ASCII alphanumerics and `-`, `_`, `.`, `~`, with uppercase
/// hex digits.
#[verifier::external_body]
pub(crate) fn url_encode(s: &str) -> (r: String)
    ensures
        r@ == percent_encode(enc(s@)),
{
    urlencoding::encode(s).into_owned()
}

/// Trusted: `urlencoding::decode`: percent-decodes the UTF-8 bytes of the text
/// (`%` with two hex digits, either case; other bytes kept) and reads the
/// result as UTF-8, failing when it is not valid UTF-8.
#[verifier::external_body]
pub(crate) fn url_decode(s: &str) -> (r: Option<String>)
    ensures
        match percent_decoded_text(s@) {
            Some(t) => r matches Some(x) && x@ == t,
            None => r is None,
        },
{
    match urlencoding::decode(s) {
        Ok(c) => Some(c.into_owned()),
        Err(_) => None,
    }
}

/// Trusted: `percent_encoding::percent_decode_str(..).decode_utf8()`: the
/// same decoding as `url_decode` (a `%` not followed by two hex digits is
/// kept), failing when the result is not valid UTF-8.
#[verifier::external_body]
pub(crate) fn percent_decode_utf8(s: &str) -> (r: Option<String>)
    ensures
        match percent_decoded_text(s@) {
            Some(t) => r matches Some(x) && x@ == t,
            None => r is None,
        },
{
    match percent_encoding::percent_decode_str(s).decode_utf8() {
        Ok(c) => Some(c.into_owned()),
        Err(_) => None,
    }
}

// ----- Base64 and hex ------------------------------------------------------

/// The standard Base64 alphabet: `A-Z`, `a-z`, `0-9`, `+`, `/`.
pub open spec fn b64_char(v: int) -> char {
    if v < 26 {
        (65 + v) as char
    } else if v < 52 {
        (97 + (v - 26)) as char
    } else if v < 62 {
        (48 + (v - 52)) as char
    } else if v == 62 {
        '+'
    } else {
        '/'
    }
}

/// Standard Base64 with `=` padding: every 3 bytes become 4 characters; a
/// final 1 or 2 bytes become 2 or 3 characters padded to 4 with `=`.
pub open spec fn base64_standard(bs: Seq<u8>) -> Seq<char>
    decreases bs.len(),
{
    if bs.len() == 0 {
        Seq::empty()
    } else {
        let b0 = bs[0] as int;
        if bs.len() == 1 {
            seq![b64_char(b0 / 4), b64_char((b0 % 4) * 16), '=', '=']
        } else {
            let b1 = bs[1] as int;
            if bs.len() == 2 {
                seq![b64_char(b0 / 4), b64_char((b0 % 4) * 16 + b1 / 16), b64_char((b1 % 16) * 4), '=']
            } else {
                let b2 = bs[2] as int;
                seq![
                    b64_char(b0 / 4),
                    b64_char((b0 % 4) * 16 + b1 / 16),
                    b64_char((b1 % 16) * 4 + b2 / 64),
                    b64_char(b2 % 64),
                ] + base64_standard(bs.skip(3))
            }
        }
    }
}

/// Trusted: `base64::engine::general_purpose::STANDARD.encode`, standard
/// alphabet with padding.
#[verifier::external_body]
pub(crate) fn base64_encode(bytes: &[u8]) -> (r: String)
    ensures
        r@ == base64_standard(bytes@),
{
    base64::Engine::encode(&base64::engine::general_purpose::STANDARD, bytes)
}

/// Lowercase hex of bytes, two digits per byte.
pub open spec fn hex_string(bs: Seq<u8>) -> Seq<char>
    decreases bs.len(),
{
    if bs.len() == 0 {
        Seq::empty()
    } else {
        seq![hex_lower(bs[0] / 16), hex_lower(bs[0] % 16)] + hex_string(bs.drop_first())
    }
}

/// Trusted: `hex::encode`, lowercase, two digits per byte.
#[verifier::external_body]
pub(crate) fn hex_encode(bytes: &[u8]) -> (r: String)
    ensures
        r@ == hex_string(bytes@),
{
    hex::encode(bytes)
}

// ----- message digests -----------------------------------------------------

/// The MD5 digest of the bytes.
pub uninterp spec fn md5_of(data: Seq<u8>) -> Seq<u8>;

/// The SHA-1 digest of the bytes.
pub uninterp spec fn sha1_of(data: Seq<u8>) -> Seq<u8>;

/// The SHA-256 digest of the bytes.
pub uninterp spec fn sha256_of(data: Seq<u8>) -> Seq<u8>;

/// The SHA-512 digest of the bytes.
pub uninterp spec fn sha512_of(data: Seq<u8>) -> Seq<u8>;

/// Trusted: `md5::Md5` (crate md-5) through `digest::Digest`: update with the
/// bytes, finalize.  The digest is 16 bytes.
#[verifier::external_body]
pub(crate) fn md5_digest(data: &[u8]) -> (r: Vec<u8>)
    ensures
        r@ == md5_of(data@),
        r@.len() == 16,
{
    let mut hasher = <md5::Md5 as digest::Digest>::new();
    digest::Digest::update(&mut hasher, data);
    digest::Digest::finalize(hasher).to_vec()
}

/// Trusted: `sha1::Sha1` through `digest::Digest`.  The digest is 20 bytes.
#[verifier::external_body]
pub(crate) fn sha1_digest(data: &[u8]) -> (r: Vec<u8>)
    ensures
        r@ == sha1_of(data@),
        r@.len() == 20,
{
    let mut hasher = <sha1::Sha1 as digest::Digest>::new();
    digest::Digest::update(&mut hasher, data);
    digest::Digest::finalize(hasher).to_vec()
}

/// Trusted: `sha2::Sha256` through `digest::Digest`.  The digest is 32 bytes.
#[verifier::external_body]
pub(crate) fn sha256_digest(data: &[u8]) -> (r: Vec<u8>)
    ensures
        r@ == sha256_of(data@),
        r@.len() == 32,
{
    let mut hasher = <sha2::Sha256 as digest::Digest>::new();
    digest::Digest::update(&mut hasher, data);
    digest::Digest::finalize(hasher).to_vec()
}

/// Trusted: `sha2::Sha512` through `digest::Digest`.  The digest is 64 bytes.
#[verifier::external_body]
pub(crate) fn sha512_digest(data: &[u8]) -> (r: Vec<u8>)
    ensures
        r@ == sha512_of(data@),
        r@.len() == 64,
{
    let mut hasher = <sha2::Sha512 as digest::Digest>::new();
    digest::Digest::update(&mut hasher, data);
    digest::Digest::finalize(hasher).to_vec()
}

// ----- content decompression -----------------------------------------------

/// The gzip-decompressed bytes, or `None` when the data is not valid gzip.
pub uninterp spec fn gunzip(data: Seq<u8>) -> Option<Seq<u8>>;

/// The raw-deflate-decompressed bytes, or `None` when invalid.
pub uninterp spec fn inflate_raw(data: Seq<u8>) -> Option<Seq<u8>>;

/// The zlib-decompressed bytes, or `None` when invalid.
pub uninterp spec fn inflate_zlib(data: Seq<u8>) -> Option<Seq<u8>>;

/// The brotli-decompressed bytes, or `None` when invalid.
pub uninterp spec fn unbrotli(data: Seq<u8>) -> Option<Seq<u8>>;

/// The zstd-decompressed bytes, or `None` when invalid (or the decoder cannot
/// be created).
pub uninterp spec fn unzstd(data: Seq<u8>) -> Option<Seq<u8>>;

/// Trusted: `flate2::read::GzDecoder` read to the end; the error text on
/// failure.
#[verifier::external_body]
pub(crate) fn gzip_decode(data: &[u8]) -> (r: Result<Vec<u8>, String>)
    ensures
        match gunzip(data@) {
            Some(d) => r matches Ok(v) && v@ == d,
            None => r is Err,
        },
{
    let mut buf = Vec::new();
    match std::io::Read::read_to_end(&mut flate2::read::GzDecoder::new(data), &mut buf) {
        Ok(_) => Ok(buf),
        Err(e) => Err(e.to_string()),
    }
}

/// Trusted: `flate2::read::DeflateDecoder` read to the end.
#[verifier::external_body]
pub(crate) fn deflate_decode(data: &[u8]) -> (r: Result<Vec<u8>, String>)
    ensures
        match inflate_raw(data@) {
            Some(d) => r matches Ok(v) && v@ == d,
            None => r is Err,
        },
{
    let mut buf = Vec::new();
    match std::io::Read::read_to_end(&mut flate2::read::DeflateDecoder::new(data), &mut buf) {
        Ok(_) => Ok(buf),
        Err(e) => Err(e.to_string()),
    }
}

/// Trusted: `flate2::read::ZlibDecoder` read to the end.
#[verifier::external_body]
pub(crate) fn zlib_decode(data: &[u8]) -> (r: Result<Vec<u8>, String>)
    ensures
        match inflate_zlib(data@) {
            Some(d) => r matches Ok(v) && v@ == d,
            None => r is Err,
        },
{
    let mut buf = Vec::new();
    match std::io::Read::read_to_end(&mut flate2::read::ZlibDecoder::new(data), &mut buf) {
        Ok(_) => Ok(buf),
        Err(e) => Err(e.to_string()),
    }
}

/// Trusted: `brotli::Decompressor` (buffer 4096) read to the end.
#[verifier::external_body]
pub(crate) fn brotli_decode(data: &[u8]) -> (r: Result<Vec<u8>, String>)
    ensures
        match unbrotli(data@) {
            Some(d) => r matches Ok(v) && v@ == d,
            None => r is Err,
        },
{
    let mut buf = Vec::new();
    match std::io::Read::read_to_end(&mut brotli::Decompressor::new(data, 4096), &mut buf) {
        Ok(_) => Ok(buf),
        Err(e) => Err(e.to_string()),
    }
}

/// Trusted: `zstd::Decoder::new` then read to the end; on failure, whether
/// the decoder had been created, and the error's text.
#[verifier::external_body]
pub(crate) fn zstd_decode(data: &[u8]) -> (r: Result<Vec<u8>, (bool, String)>)
    ensures
        match unzstd(data@) {
            Some(d) => r matches Ok(v) && v@ == d,
            None => r is Err,
        },
{
    let mut buf = Vec::new();
    match zstd::Decoder::new(data) {
        Ok(mut dec) => match std::io::Read::read_to_end(&mut dec, &mut buf) {
            Ok(_) => Ok(buf),
            Err(e) => Err((true, e.to_string())),
        },
        Err(e) => Err((false, e.to_string())),
    }
}

// ----- randomness and time -------------------------------------------------

/// Trusted: `rand::thread_rng().fill_bytes` on 8 bytes.  Random: only the
/// length is stated.
#[verifier::external_body]
pub(crate) fn random_bytes_8() -> (r: Vec<u8>)
    ensures
        r@.len() == 8,
{
    let mut bytes = [0u8; 8];
    rand::RngCore::fill_bytes(&mut rand::thread_rng(), &mut bytes);
    bytes.to_vec()
}

/// Trusted: `fastrand::Rng::new().u32(..u32::MAX)`.  Random: only the range
/// is stated.
#[verifier::external_body]
pub(crate) fn random_u32_below_max() -> (r: u32)
    ensures
        r < u32::MAX,
{
    fastrand::Rng::new().u32(..u32::MAX)
}

/// Trusted: nanoseconds since the Unix epoch from `SystemTime::now()`, 0 when
/// the clock is before the epoch.  Depends on the time: nothing is stated.
#[verifier::external_body]
pub(crate) fn unix_nanos() -> u128 {
    match std::time::SystemTime::now().duration_since(std::time::UNIX_EPOCH) {
        Ok(d) => d.as_nanos(),
        Err(_) => 0,
    }
}

} // verus!
