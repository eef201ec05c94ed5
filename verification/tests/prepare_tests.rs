use requestx::cookies::Cookies;
use requestx::headers::Headers;
use requestx::prepare::new_request;
use requestx::url_model::URL;
use requestx::prepare::{
    add_host_and_cookies, append_query, apply_body, apply_url_auth, encode_form, get_host_header,
    host_header_value, make_default_headers, mount_pattern_error, multipart_framing,
    normalize_base_url, port_matches,
    redirect_headers, resolve_and_apply_auth, resolve_url, scheme_default_port, select_mount,
    url_matches_pattern, AuthAction, RequestBody,
};

fn h(pairs: &[(&str, &str)]) -> Headers {
    Headers::from_vec(pairs.iter().map(|(k, v)| (k.to_string(), v.to_string())).collect())
}

#[test]
fn host_header_includes_only_non_default_ports() {
    assert_eq!(scheme_default_port("https"), 443);
    assert_eq!(scheme_default_port("ftp"), 0);
    assert_eq!(get_host_header("example.com", Some(443), "https"), "example.com");
    assert_eq!(get_host_header("example.com", Some(8443), "https"), "example.com:8443");
    assert_eq!(get_host_header("example.com", None, "http"), "example.com");
    assert_eq!(host_header_value(None, Some(1), "http"), None);
    assert_eq!(host_header_value(Some("h"), Some(80), "http"), Some("h".to_string()));
}

#[test]
fn url_credentials_only_without_authorization() {
    let mut a = Headers::new();
    apply_url_auth(&mut a, "user", Some("pass"));
    assert_eq!(a.get("authorization", None), Some("Basic dXNlcjpwYXNz".to_string()));
    let mut b = h(&[("Authorization", "Bearer t")]);
    apply_url_auth(&mut b, "user", None);
    assert_eq!(b.get("authorization", None), Some("Bearer t".to_string()));
    let mut c = Headers::new();
    apply_url_auth(&mut c, "", Some("x"));
    assert!(!c.contains("authorization"));
    let mut d = Headers::new();
    apply_url_auth(&mut d, "admin", None);
    assert_eq!(d.get("authorization", None), Some("Basic YWRtaW46".to_string()));
}

#[test]
fn auth_actions() {
    let client = Some(("user".to_string(), "pass".to_string()));
    let mut a = Headers::new();
    assert!(resolve_and_apply_auth::<u8>(AuthAction::UseClientDefault, &client, &mut a).is_none());
    assert_eq!(a.get("authorization", None), Some("Basic dXNlcjpwYXNz".to_string()));
    let mut b = Headers::new();
    resolve_and_apply_auth::<u8>(AuthAction::Disabled, &client, &mut b);
    assert!(!b.contains("authorization"));
    let mut c = Headers::new();
    resolve_and_apply_auth::<u8>(AuthAction::Basic("admin".to_string(), "".to_string()), &None, &mut c);
    assert_eq!(c.get("authorization", None), Some("Basic YWRtaW46".to_string()));
    let mut d = Headers::new();
    assert_eq!(resolve_and_apply_auth(AuthAction::Callable(7u8), &client, &mut d), Some(7u8));
    assert!(!d.contains("authorization"));
}

#[test]
fn redirect_keeps_or_drops_authorization() {
    let base = h(&[("Authorization", "x"), ("Host", "a.com")]);
    let same = redirect_headers(&base, "https", "A.com", None, "HTTPS", "a.com", Some(443));
    assert_eq!(same.get("authorization", None), Some("x".to_string()));
    assert_eq!(same.get("host", None), Some("a.com:443".to_string()));
    let upgrade = redirect_headers(&base, "http", "a.com", None, "https", "a.com", None);
    assert!(upgrade.contains("authorization"));
    let other = redirect_headers(&base, "https", "a.com", None, "https", "b.com", Some(8443));
    assert!(!other.contains("authorization"));
    assert_eq!(other.get("host", None), Some("b.com:8443".to_string()));
}

#[test]
fn base_url_query_and_resolution() {
    assert_eq!(normalize_base_url("https://a.com/api"), "https://a.com/api/");
    assert_eq!(normalize_base_url("https://a.com/"), "https://a.com/");
    assert_eq!(append_query("https://a.com/x", ""), "https://a.com/x");
    assert_eq!(append_query("https://a.com/x", "a=1"), "https://a.com/x?a=1");
    assert_eq!(append_query("https://a.com/x?b=2", "a=1"), "https://a.com/x?b=2&a=1");
    assert_eq!(resolve_url(Some("https://a.com/api/"), "users").unwrap(), "https://a.com/api/users");
    assert_eq!(resolve_url(Some("https://a.com/api/"), "http://b.com/").unwrap(), "http://b.com/");
    assert_eq!(resolve_url(None, "users").unwrap(), "users");
    assert!(resolve_url(Some("not a url"), "users").is_err());
}

#[test]
fn mount_patterns() {
    assert!(url_matches_pattern("http://x.com/a", "all://"));
    assert!(url_matches_pattern("https://x.com/a", "https://"));
    assert!(!url_matches_pattern("http://x.com/a", "https://"));
    assert!(url_matches_pattern("http://x.com:8080/a", "http://x.com"));
    assert!(url_matches_pattern("http://x.com:8080/a", "http://x.com:8080"));
    assert!(!url_matches_pattern("http://x.com:9090/a", "http://x.com:8080"));
    assert!(url_matches_pattern("http://www.x.com/", "http://*.x.com"));
    assert!(!url_matches_pattern("http://x.com/", "http://*.x.com"));
    assert!(url_matches_pattern("http://x.com/", "http://*x.com"));
    assert!(url_matches_pattern("http://www.x.com/", "http://*x.com"));
    assert!(url_matches_pattern("https://y.com/", "all://y.com"));
    assert!(url_matches_pattern("http://anything/", "http://*"));
    assert!(port_matches(Some("1"), None));
    assert!(!port_matches(None, Some("1")));
    let patterns = vec!["all://".to_string(), "http://x.com".to_string(), "https://".to_string()];
    assert_eq!(select_mount("http://x.com/a", &patterns), Some(1));
    assert_eq!(select_mount("ftp://z/", &vec!["http://".to_string()]), None);
}

#[test]
fn default_headers() {
    let user = h(&[("Accept", "text/html")]);
    let d = make_default_headers(Some(&user), "1.2.3");
    assert_eq!(d.get("accept", None), Some("text/html".to_string()));
    assert_eq!(d.get("user-agent", None), Some("python-httpx/1.2.3".to_string()));
    assert_eq!(d.get("accept-encoding", None), Some("gzip, deflate, br, zstd".to_string()));
    assert_eq!(d.get("connection", None), Some("keep-alive".to_string()));
}

#[test]
fn host_and_cookie_headers() {
    let mut cookies = Cookies::new();
    cookies.set("a", "1");
    let mut x = h(&[("accept", "*/*")]);
    add_host_and_cookies(&mut x, Some("a.com".to_string()), &cookies);
    assert_eq!(x.multi_items()[0], ("Host".to_string(), "a.com".to_string()));
    assert_eq!(x.get("cookie", None), Some("a=1".to_string()));
    let mut y = h(&[("host", "given")]);
    add_host_and_cookies(&mut y, Some("a.com".to_string()), &Cookies::new());
    assert_eq!(y.get("host", None), Some("given".to_string()));
    assert!(!y.contains("cookie"));
}

#[test]
fn form_and_multipart_framing() {
    let f = vec![("a b".to_string(), "1&2".to_string()), ("c".to_string(), "\u{e9}".to_string())];
    assert_eq!(encode_form(&f), "a%20b=1%262&c=%C3%A9");
    assert_eq!(
        multipart_framing(None, "XYZ"),
        ("XYZ".to_string(), "multipart/form-data; boundary=XYZ".to_string())
    );
    assert_eq!(
        multipart_framing(Some("multipart/form-data; boundary=abc"), "XYZ"),
        ("abc".to_string(), "multipart/form-data; boundary=abc".to_string())
    );
    assert_eq!(
        multipart_framing(Some("multipart/mixed"), "XYZ"),
        ("XYZ".to_string(), "multipart/mixed".to_string())
    );
}

#[test]
fn body_headers() {
    let mut a = Headers::new();
    let b = apply_body(&mut a, "post", RequestBody::Json("{\"a\":1}".to_string()));
    assert_eq!(b, b"{\"a\":1}".to_vec());
    assert_eq!(a.get("content-length", None), Some("7".to_string()));
    assert_eq!(a.get("content-type", None), Some("application/json".to_string()));
    let mut c = h(&[("Content-Type", "text/x")]);
    let body = apply_body(&mut c, "POST", RequestBody::Form(vec![("k".to_string(), "v w".to_string())]));
    assert_eq!(body, b"k=v%20w".to_vec());
    assert_eq!(c.get("content-type", None), Some("text/x".to_string()));
    let mut d = Headers::new();
    apply_body(&mut d, "patch", RequestBody::Nothing);
    assert_eq!(d.get("content-length", None), Some("0".to_string()));
    let mut e = Headers::new();
    apply_body(&mut e, "GET", RequestBody::Nothing);
    assert!(!e.contains("content-length"));
    let mut g = Headers::new();
    apply_body(&mut g, "POST", RequestBody::EmptyFiles);
    assert!(!g.contains("content-length"));
    let mut m = Headers::new();
    apply_body(&mut m, "POST", RequestBody::Multipart(vec![1, 2, 3], "multipart/form-data; boundary=b".to_string()));
    assert_eq!(m.get("content-length", None), Some("3".to_string()));
    assert_eq!(m.get("content-type", None), Some("multipart/form-data; boundary=b".to_string()));
    let mut r = Headers::new();
    assert_eq!(apply_body(&mut r, "PUT", RequestBody::Content(vec![9; 12])).len(), 12);
    assert_eq!(r.get("content-length", None), Some("12".to_string()));
}

#[test]
fn mount_pattern_without_scheme_separator_is_refused() {
    assert_eq!(mount_pattern_error("https://"), None);
    assert_eq!(mount_pattern_error("all://example.com"), None);
    assert_eq!(
        mount_pattern_error("http"),
        Some("Mount pattern 'http' is invalid. Did you mean 'http://'?".to_string())
    );
}

#[test]
fn request_objects_apply_body_arguments_in_order() {
    let url = URL::parse("https://Example.com:8443/p").unwrap();
    let r = new_request("post", url, Headers::new(), None, Some(b"raw".to_vec()), Some("{}".to_string()), None, None);
    assert_eq!(r.method, "POST");
    assert_eq!(r.content, Some(b"{}".to_vec()));
    assert_eq!(r.headers.get("content-type", None), Some("application/json".to_string()));
    assert_eq!(r.headers.get("content-length", None), Some("2".to_string()));
    assert_eq!(r.headers.get("host", None), Some("example.com".to_string()));

    let url = URL::parse("http://h/").unwrap();
    let data = vec![("a".to_string(), "x y".to_string())];
    let r = new_request("put", url, Headers::new(), None, None, None, None, Some(data));
    assert_eq!(r.content, Some(b"a=x%20y".to_vec()));
    assert_eq!(r.headers.get("content-type", None), Some("application/x-www-form-urlencoded".to_string()));

    let url = URL::parse("http://h/").unwrap();
    let r = new_request("get", url, Headers::new(), None, None, None, None, None);
    assert_eq!(r.content, None);
    assert_eq!(r.headers.get("content-length", None), None);
    let url = URL::parse("http://h/").unwrap();
    let r = new_request("patch", url, Headers::new(), None, None, None, None, None);
    assert_eq!(r.headers.get("content-length", None), Some("0".to_string()));
}
