use requestx::decoding::{
    decode_header_bytes, decode_json_bytes, decode_text, decode_utf16, decode_utf32, decompress,
    guess_json_utf, json_text_from_bytes, links, parse_charset_from_content_type, response_encoding,
};
use requestx::headers::HeaderEncoding;

const GZ: [u8; 31] = [
    31, 139, 8, 0, 0, 0, 0, 0, 2, 3, 203, 72, 205, 201, 201, 87, 40, 207, 47, 202, 73, 1, 0, 133, 17,
    74, 13, 11, 0, 0, 0,
];
const ZLIB: [u8; 19] = [120, 156, 203, 72, 205, 201, 201, 87, 40, 207, 47, 202, 73, 1, 0, 26, 11, 4, 93];
const RAW: [u8; 13] = [203, 72, 205, 201, 201, 87, 40, 207, 47, 202, 73, 1, 0];

#[test]
fn decompression() {
    assert_eq!(decompress(&GZ, " GZIP ").unwrap(), b"hello world".to_vec());
    assert_eq!(decompress(&RAW, "deflate").unwrap(), b"hello world".to_vec());
    assert_eq!(decompress(&ZLIB, "deflate").unwrap(), b"hello world".to_vec());
    assert_eq!(decompress(b"abc", "identity").unwrap(), b"abc".to_vec());
    assert_eq!(decompress(b"abc", "weird").unwrap(), b"abc".to_vec());
    assert_eq!(decompress(b"", "gzip").unwrap(), Vec::<u8>::new());
    let e = decompress(b"not gzip", "gzip").unwrap_err();
    assert!(e.starts_with("Failed to decode gzip content: "));
    assert!(decompress(b"xx", "br").is_err());
}

#[test]
fn charset_and_encoding() {
    assert_eq!(parse_charset_from_content_type("text/html; charset=utf-8"), Some("utf-8".to_string()));
    assert_eq!(parse_charset_from_content_type("text/html; CHARSET=\"latin-1\""), Some("latin-1".to_string()));
    assert_eq!(parse_charset_from_content_type("application/json"), None);
    assert_eq!(parse_charset_from_content_type("text/plain; charset=''"), None);
    assert_eq!(response_encoding(Some("ascii"), Some("text/html; charset=utf-8"), "utf-8"), "ascii");
    assert_eq!(response_encoding(None, Some("text/html; charset=koi8"), "utf-8"), "koi8");
    assert_eq!(response_encoding(None, None, "utf-8"), "utf-8");
}

#[test]
fn text_decoding() {
    assert_eq!(decode_text("h\u{e9}".as_bytes(), "UTF-8"), Some("h\u{e9}".to_string()));
    assert_eq!(decode_text(&[0x68, 0xe9], "utf-8"), None);
    assert_eq!(decode_text(&[0x68, 0xe9], "latin-1"), Some("h\u{e9}".to_string()));
    assert_eq!(decode_text(&[0x68, 0xe9], "ascii"), Some("h?".to_string()));
    assert_eq!(decode_text(&[0x68, 0xe9], "cp1252"), Some("h\u{e9}".to_string()));
    assert_eq!(decode_text("ok".as_bytes(), "cp1252"), Some("ok".to_string()));
}

#[test]
fn json_encoding_detection() {
    assert_eq!(guess_json_utf(b"{}"), None);
    assert_eq!(guess_json_utf(&[0xef, 0xbb, 0xbf, b'{']), Some("utf-8-sig".to_string()));
    assert_eq!(guess_json_utf(&[0, 0, 0xfe, 0xff]), Some("utf-32-be".to_string()));
    assert_eq!(guess_json_utf(&[0xff, 0xfe, 0, 0]), Some("utf-32-le".to_string()));
    assert_eq!(guess_json_utf(&[0xfe, 0xff, 0, 1]), Some("utf-16-be".to_string()));
    assert_eq!(guess_json_utf(&[0, b'{', 0, b'}']), Some("utf-16-be".to_string()));
    assert_eq!(guess_json_utf(&[b'{', 0, b'}', 0]), Some("utf-16-le".to_string()));
    assert_eq!(guess_json_utf(&[0, 0, 0, b'{']), Some("utf-32-be".to_string()));
    assert_eq!(guess_json_utf(&[b'{', 0, 0, 0]), Some("utf-32-le".to_string()));
    assert_eq!(guess_json_utf(&[0, b'1']), Some("utf-16-be".to_string()));
    assert_eq!(guess_json_utf(&[b'1']), None);
}

#[test]
fn json_decoding() {
    let be: Vec<u8> = vec![0, 123, 0, 34, 0, 97, 0, 34, 0, 58, 0, 49, 0, 125];
    assert_eq!(decode_json_bytes(&be).unwrap(), "{\"a\":1}");
    assert_eq!(decode_utf16(&[172, 32], false).unwrap(), "\u{20ac}");
    assert_eq!(decode_utf16(&[0x3d, 0xd8, 0x00, 0xde], false).unwrap(), "\u{1f600}");
    assert!(decode_utf16(&[0x00, 0xd8], false).is_err());
    assert!(decode_utf16(&[1, 2, 3], true).is_err());
    assert_eq!(decode_utf32(&[0, 0, 0xfe, 0xff, 0, 0, 0, 65], true).unwrap(), "A");
    assert_eq!(
        decode_utf32(&[0x00, 0xd8, 0x00, 0x00], false).unwrap_err(),
        "Invalid UTF-32 code point: 55296"
    );
    assert!(decode_utf32(&[0, 0, 0], true).is_err());
    let mut with_bom = vec![0xef, 0xbb, 0xbf];
    with_bom.extend_from_slice(b"[1]");
    assert_eq!(decode_json_bytes(&with_bom).unwrap(), "[1]");
    assert_eq!(json_text_from_bytes("\u{feff}[2]".as_bytes()).unwrap(), "[2]");
    assert!(json_text_from_bytes(b"").is_err());
}

#[test]
fn header_bytes() {
    assert_eq!(decode_header_bytes(b"abc"), ("abc".to_string(), HeaderEncoding::Ascii));
    assert_eq!(decode_header_bytes("\u{e9}".as_bytes()), ("\u{e9}".to_string(), HeaderEncoding::Utf8));
    assert_eq!(decode_header_bytes(&[0xe9]), ("\u{e9}".to_string(), HeaderEncoding::Latin1));
}

#[test]
fn link_header_parsing() {
    let l = links(Some("<https://a/2>; rel=\"next\", <https://a/1>; rel='prev'; type=text/html, junk"));
    assert_eq!(l.len(), 2);
    assert_eq!(l[0].0, "next");
    assert_eq!(
        l[0].1,
        vec![("url".to_string(), "https://a/2".to_string()), ("rel".to_string(), "next".to_string())]
    );
    assert_eq!(l[1].0, "prev");
    assert_eq!(l[1].1[2], ("type".to_string(), "text/html".to_string()));
    let nk = links(Some("<https://b/>"));
    assert_eq!(nk[0].0, "https://b/");
    assert!(links(None).is_empty());
}
