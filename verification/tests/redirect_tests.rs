use requestx::redirect::{
    build_redirect_url, get_redirect_method, is_redirect, redirect_decision, redirect_limit_reached,
    redirect_step, redirect_url_text, too_many_redirects_message, Method, RedirectAction,
};

fn parts(uri: &hyper::Uri) -> (Option<&str>, Option<&str>, Option<u16>, Option<&str>) {
    (uri.scheme_str(), uri.host(), uri.port_u16(), uri.path_and_query().map(|p| p.as_str()))
}

#[test]
fn test_is_redirect() {
    assert!(is_redirect(301));
    assert!(is_redirect(302));
    assert!(is_redirect(303));
    assert!(is_redirect(307));
    assert!(is_redirect(308));
    assert!(!is_redirect(200));
    assert!(!is_redirect(404));
    assert!(!is_redirect(500));
}

#[test]
fn test_get_redirect_method_post_to_get() {
    assert_eq!(get_redirect_method(&Method::POST, 301), Method::GET);
    assert_eq!(get_redirect_method(&Method::POST, 302), Method::GET);
    assert_eq!(get_redirect_method(&Method::POST, 303), Method::GET);
    assert_eq!(get_redirect_method(&Method::POST, 307), Method::POST);
    assert_eq!(get_redirect_method(&Method::POST, 308), Method::POST);
}

#[test]
fn test_get_redirect_method_get_unchanged() {
    assert_eq!(get_redirect_method(&Method::GET, 301), Method::GET);
    assert_eq!(get_redirect_method(&Method::GET, 302), Method::GET);
    assert_eq!(get_redirect_method(&Method::GET, 303), Method::GET);
    assert_eq!(get_redirect_method(&Method::GET, 307), Method::GET);
    assert_eq!(get_redirect_method(&Method::GET, 308), Method::GET);
}

#[test]
fn test_get_redirect_method_head_unchanged() {
    assert_eq!(get_redirect_method(&Method::HEAD, 301), Method::HEAD);
    assert_eq!(get_redirect_method(&Method::HEAD, 303), Method::HEAD);
    assert_eq!(get_redirect_method(&Method::HEAD, 307), Method::HEAD);
}

#[test]
fn test_build_redirect_url_absolute() {
    let uri: hyper::Uri = "https://example.com/path".parse().unwrap();
    let (s, h, p, b) = parts(&uri);
    let result = build_redirect_url("https://other.com/new", s, h, p, b).unwrap();
    assert_eq!(result, "https://other.com/new".parse::<hyper::Uri>().unwrap());
}

#[test]
fn test_build_redirect_url_relative() {
    let uri: hyper::Uri = "https://example.com/path".parse().unwrap();
    let (s, h, p, b) = parts(&uri);
    let result = build_redirect_url("/new", s, h, p, b).unwrap();
    assert_eq!(result, "https://example.com/new".parse::<hyper::Uri>().unwrap());
}

#[test]
fn relative_redirect_keeps_port_and_defaults_scheme() {
    assert_eq!(redirect_url_text("/x", Some("http"), Some("h"), Some(8080), Some("/a/b")), "http://h:8080/x");
    assert_eq!(redirect_url_text("/x", None, None, None, None), "https:///x");
}

#[test]
fn relative_redirect_is_resolved_against_the_base() {
    let uri: hyper::Uri = "https://example.com/dir/page?q=1".parse().unwrap();
    let (s, h, p, b) = parts(&uri);
    assert_eq!(
        build_redirect_url("other", s, h, p, b).unwrap(),
        "https://example.com/dir/other".parse::<hyper::Uri>().unwrap()
    );
    assert_eq!(redirect_url_text("?z=2", s, h, p, b), "https://example.com/dir/page?z=2");
    assert_eq!(redirect_url_text("//cdn.example/x", s, h, p, b), "https://cdn.example/x");
    assert_eq!(redirect_url_text("x", Some("http"), Some("h"), None, Some("noslash")), "http://h/x");
    assert!(build_redirect_url("http://[bad", s, h, p, b).is_err());
}

#[test]
fn relative_references_follow_rfc_3986() {
    let b = (Some("http"), Some("a"), None, Some("/b/c/d;p?q"));
    let t = |loc: &str| redirect_url_text(loc, b.0, b.1, b.2, b.3);
    assert_eq!(t("g"), "http://a/b/c/g");
    assert_eq!(t("./g"), "http://a/b/c/g");
    assert_eq!(t("g/"), "http://a/b/c/g/");
    assert_eq!(t("/./g"), "http://a/g");
    assert_eq!(t("?y"), "http://a/b/c/d;p?y");
    assert_eq!(t("g?y"), "http://a/b/c/g?y");
    assert_eq!(t("."), "http://a/b/c/");
    assert_eq!(t(".."), "http://a/b/");
    assert_eq!(t("../g"), "http://a/b/g");
    assert_eq!(t("../.."), "http://a/");
    assert_eq!(t("../../g"), "http://a/g");
    assert_eq!(t("/a/./b/../c?x=../y"), "http://a/a/c?x=../y");
}

#[test]
fn extension_methods_are_kept() {
    let m = Method::Extension("PURGE".to_string());
    assert_eq!(get_redirect_method(&m, 301), m);
    assert_eq!(get_redirect_method(&m, 303), Method::GET);
}

#[test]
fn redirect_decision_follows_location() {
    match redirect_decision(true, 302, Some("/next"), &Method::POST, Some("https"), Some("a.com"), None, Some("/old?x=1")) {
        RedirectAction::Follow { url, method, keep_body } => {
            assert_eq!(url, "https://a.com/next");
            assert_eq!(method, Method::GET);
            assert!(!keep_body);
        }
        other => panic!("unexpected {:?}", other),
    }
    assert!(matches!(
        redirect_decision(true, 302, None, &Method::GET, None, None, None, None),
        RedirectAction::Finish
    ));
    assert!(matches!(
        redirect_decision(false, 200, Some("/x"), &Method::GET, None, None, None, None),
        RedirectAction::Finish
    ));
}

#[test]
fn redirect_limit() {
    assert!(!redirect_limit_reached(29));
    assert!(redirect_limit_reached(30));
}

#[test]
fn redirect_step_refuses_beyond_the_limit() {
    let b = (Some("https"), Some("a.com"), None, Some("/x"));
    match redirect_step(19, 20, true, 302, Some("/next"), &Method::GET, b.0, b.1, b.2, b.3) {
        RedirectAction::Follow { url, method, keep_body } => {
            assert_eq!(url, "https://a.com/next");
            assert_eq!(method, Method::GET);
            assert!(keep_body);
        }
        other => panic!("unexpected {:?}", other),
    }
    match redirect_step(20, 20, true, 302, Some("/next"), &Method::GET, b.0, b.1, b.2, b.3) {
        RedirectAction::TooManyRedirects { url } => {
            assert_eq!(too_many_redirects_message(&url), "error following redirect for url (https://a.com/next)");
        }
        other => panic!("unexpected {:?}", other),
    }
    assert!(matches!(
        redirect_step(20, 20, true, 302, None, &Method::GET, b.0, b.1, b.2, b.3),
        RedirectAction::Finish
    ));
    assert!(matches!(
        redirect_step(0, 0, false, 200, Some("/x"), &Method::GET, b.0, b.1, b.2, b.3),
        RedirectAction::Finish
    ));
}
