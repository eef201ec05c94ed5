use requestx::auth::{
    algorithm_for, basic_auth_header, build_basic_auth_header, compute_digest_response, digest_hash,
    generate_cnonce, DigestAlgorithm, DigestError,
};

#[test]
fn test_build_basic_auth_header() {
    let header = build_basic_auth_header("user", "pass");
    assert!(header.starts_with("Basic "));
    assert!(header.contains("dXNlcjpwYXNz"));
}

#[test]
fn test_build_basic_auth_header_empty_password() {
    let header = build_basic_auth_header("admin", "");
    assert!(header.starts_with("Basic "));
    assert!(header.contains("YWRtaW46"));
}

#[test]
fn basic_auth_header_exact_value() {
    assert_eq!(basic_auth_header("Aladdin", "open sesame"), "Basic QWxhZGRpbjpvcGVuIHNlc2FtZQ==");
}

#[test]
fn digest_hash_algorithms() {
    assert_eq!(digest_hash("abc", "MD5"), "900150983cd24fb0d6963f7d28e17f72");
    assert_eq!(digest_hash("abc", "sha"), "a9993e364706816aba3e25717850c26c9cd0d89d");
    assert_eq!(
        digest_hash("abc", "SHA-256-sess"),
        "ba7816bf8f01cfea414140de5dae2223b00361a396177a9cb410ff61f20015ad"
    );
    assert_eq!(digest_hash("abc", "unknown"), "900150983cd24fb0d6963f7d28e17f72");
}

#[test]
fn algorithm_names() {
    assert!(matches!(algorithm_for("sha-512"), DigestAlgorithm::Sha512));
    assert!(matches!(algorithm_for("MD5-SESS"), DigestAlgorithm::Md5));
}

#[test]
fn digest_response_with_qop_auth() {
    let r = compute_digest_response(
        "Mufasa",
        "Circle Of Life",
        "testrealm@host.com",
        "dcd98b7102dd2f0e8b11d0f600bfb0c093",
        "00000001",
        "0a4f113b",
        "auth,auth-int",
        "GET",
        "/dir/index.html",
        "MD5",
    )
    .unwrap();
    assert_eq!(r.0, "6629fae49393a05397450978507c4ef1");
    assert_eq!(r.1, Some("auth".to_string()));
}

#[test]
fn digest_response_without_qop() {
    let r = compute_digest_response(
        "Mufasa",
        "Circle Of Life",
        "testrealm@host.com",
        "dcd98b7102dd2f0e8b11d0f600bfb0c093",
        "00000001",
        "0a4f113b",
        "",
        "GET",
        "/dir/index.html",
        "MD5",
    )
    .unwrap();
    assert_eq!(r.0, "670fd8c2df070c60b045671b8b24ff02");
    assert_eq!(r.1, None);
}

#[test]
fn digest_response_errors() {
    let r = compute_digest_response("u", "p", "r", "n", "1", "c", "auth-int", "GET", "/", "MD5");
    assert!(matches!(r, Err(DigestError::AuthIntNotImplemented)));
    let r = compute_digest_response("u", "p", "r", "n", "1", "c", "other", "GET", "/", "MD5");
    assert!(matches!(r, Err(DigestError::UnsupportedQop(_))));
}

#[test]
fn cnonce_is_sixteen_hex_chars() {
    let c = generate_cnonce();
    assert_eq!(c.len(), 16);
    assert!(c.chars().all(|ch| ch.is_ascii_hexdigit()));
}

#[test]
fn cnonce_is_the_first_eight_sha1_bytes_in_hex() {
    let bytes = [1u8, 2, 3, 4, 5, 6, 7, 8];
    let full = requestx::auth::digest_hash("", "MD5");
    assert_eq!(full.len(), 32);
    let c = requestx::auth::cnonce_of(&bytes);
    assert_eq!(c.len(), 16);
    let mut h = <sha1::Sha1 as sha1::Digest>::new();
    sha1::Digest::update(&mut h, bytes);
    let d = sha1::Digest::finalize(h);
    assert_eq!(c, hex::encode(&d[..8]));
}
