use requestx::url_text::{
    decode_fragment, encode_userinfo, extract_original_host, extract_original_raw_path, is_valid_idna,
    is_valid_ipv4, is_valid_ipv6, looks_like_ipv4, normalize_raw_path,
};

#[test]
fn fragments() {
    assert_eq!(decode_fragment("a%20b"), "a b");
    assert_eq!(decode_fragment("%FF"), "%FF");
}

#[test]
fn ipv4() {
    assert!(looks_like_ipv4("1.2.3"));
    assert!(!looks_like_ipv4(""));
    assert!(!looks_like_ipv4("1.a"));
    assert!(is_valid_ipv4("192.168.0.1"));
    assert!(is_valid_ipv4("+1.0.0.255"));
    assert!(!is_valid_ipv4("1.2.3"));
    assert!(!is_valid_ipv4("1.2.3.256"));
    assert!(!is_valid_ipv4("1..3.4"));
    assert!(!is_valid_ipv4("1.2.3.99999999999"));
}

#[test]
fn ipv6() {
    assert!(is_valid_ipv6("::1"));
    assert!(is_valid_ipv6("2001:db8::ff00:42:8329"));
    assert!(is_valid_ipv6("::ffff:192.0.2.1"));
    assert!(!is_valid_ipv6("12345::"));
    assert!(!is_valid_ipv6("abc"));
    assert!(!is_valid_ipv6("::g"));
    assert!(!is_valid_ipv6("::1.2.3"));
}

#[test]
fn idna() {
    assert!(is_valid_idna("b\u{fc}cher.de"));
    assert!(!is_valid_idna("\u{2603}.com"));
    assert!(!is_valid_idna("x\u{1f600}.com"));
}

#[test]
fn userinfo() {
    assert_eq!(encode_userinfo("a b@c:d/%41"), "a%20b%40c%3Ad%2F%41");
    assert_eq!(encode_userinfo("\u{e9}!"), "%C3%A9%21");
    assert_eq!(encode_userinfo("A-z_0.~"), "A-z_0.~");
}

#[test]
fn raw_paths() {
    assert_eq!(normalize_raw_path("/a b/%7e/\u{e9}'"), "/a%20b/%7e/%C3%A9'");
    assert_eq!(normalize_raw_path("%4"), "%4");
    assert_eq!(
        extract_original_raw_path("http://h/p a?q='x'#frag"),
        Some("/p%20a?q='x'".to_string())
    );
    assert_eq!(extract_original_raw_path("http://h"), None);
    assert_eq!(extract_original_raw_path("no scheme"), None);
}

#[test]
fn original_hosts() {
    assert_eq!(extract_original_host("http://[::1]:8080/x"), Some("::1".to_string()));
    assert_eq!(extract_original_host("http://user@b\u{fc}cher.de/x"), Some("b\u{fc}cher.de".to_string()));
    assert_eq!(extract_original_host("http://example.com:80/"), None);
    assert_eq!(extract_original_host("example.com"), None);
}
