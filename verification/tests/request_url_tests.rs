use requestx::request_url::{parse_and_validate_url, UrlCheckError};

#[test]
fn empty_and_schemeless_urls_are_refused() {
    assert_eq!(parse_and_validate_url("").err(), Some(UrlCheckError::UrlRequired));
    assert_eq!(parse_and_validate_url("example.com/x").err(), Some(UrlCheckError::MissingSchema));
}

#[test]
fn only_http_and_https_are_accepted() {
    assert_eq!(
        parse_and_validate_url("ftp://example.com/f").err(),
        Some(UrlCheckError::InvalidSchema("ftp".to_string()))
    );
    let (uri, auth) = parse_and_validate_url("https://example.com/p?q=1").unwrap();
    assert_eq!(uri, "https://example.com/p?q=1".parse::<hyper::Uri>().unwrap());
    assert_eq!(auth, None);
}

#[test]
fn credentials_come_only_from_user_information_before_at() {
    let (_, auth) = parse_and_validate_url("https://user:pa:ss@example.com/").unwrap();
    assert_eq!(auth, Some(("user".to_string(), "pa:ss".to_string())));
    let (uri, auth) = parse_and_validate_url("http://example.com:8080/p").unwrap();
    assert_eq!(uri, "http://example.com:8080/p".parse::<hyper::Uri>().unwrap());
    assert_eq!(auth, None);
    let (_, auth) = parse_and_validate_url("http://u:p@h/").unwrap();
    assert_eq!(auth, Some(("u".to_string(), "p".to_string())));
    let (_, auth) = parse_and_validate_url("http://u@h/").unwrap();
    assert_eq!(auth, None);
}

#[test]
fn unparsable_urls_are_invalid() {
    assert!(matches!(parse_and_validate_url("http://exa mple.com/"), Err(UrlCheckError::InvalidUrl(_))));
}
