use requestx::cookies::{CookieError, Cookies};

#[test]
fn set_get_and_header() {
    let mut c = Cookies::new();
    c.set("a", "1");
    c.set("b", "2");
    assert_eq!(c.get("a", None, None, None).unwrap(), Some("1".to_string()));
    assert_eq!(c.to_header_value(), "a=1; b=2");
    c.set("a", "3");
    assert_eq!(c.len(), 2);
    assert_eq!(c.get_item("a").unwrap(), "3");
}

#[test]
fn conflicts_and_missing() {
    let mut c = Cookies::new();
    c.set_with_domain_path("n", "1", "a.com", "/");
    c.set_with_domain_path("n", "2", "b.com", "/");
    match c.get("n", None, None, None) {
        Err(CookieError::Conflict(m)) => {
            assert_eq!(m, "Multiple cookies with name 'n' exist for different domains/paths")
        }
        other => panic!("unexpected {:?}", other),
    }
    assert_eq!(c.get("n", None, Some("b.com"), None).unwrap(), Some("2".to_string()));
    assert!(matches!(c.get_item("zz"), Err(CookieError::NotFound(_))));
    assert_eq!(c.get("zz", Some("d"), None, None).unwrap(), Some("d".to_string()));
}

#[test]
fn delete_and_clear() {
    let mut c = Cookies::new();
    c.set_with_domain_path("n", "1", "a.com", "/");
    c.set_with_domain_path("m", "2", "b.com", "/");
    c.delete("n", None, None);
    assert!(!c.contains("n"));
    assert!(c.contains("m"));
    c.clear(Some("b.com"), None);
    assert_eq!(c.len(), 0);
}

#[test]
fn set_cookie_parsing() {
    let mut c = Cookies::new();
    c.parse_set_cookie("sid=abc; Domain=.example.com; Path=/app; HttpOnly", "default.com");
    let jar = c.jar();
    assert_eq!(jar.len(), 1);
    assert_eq!(jar.cookies[0].name, "sid");
    assert_eq!(jar.cookies[0].value, "abc");
    assert_eq!(jar.cookies[0].domain, "example.com");
    assert_eq!(jar.cookies[0].path, "/app");
    assert_eq!(jar.cookies[0].repr(), "<Cookie sid=abc for example.com />");
}

#[test]
fn response_cookie_header() {
    let c = Cookies::from_set_cookie_header(Some(" a = 1 ; Path=/"));
    assert_eq!(c.items(), vec![("a".to_string(), "1".to_string())]);
    let none = Cookies::from_set_cookie_header(None);
    assert_eq!(none.len(), 0);
}

#[test]
fn equality_and_repr() {
    let mut a = Cookies::new();
    a.set("x", "1");
    a.set("y", "2");
    let mut b = Cookies::new();
    b.set("y", "2");
    b.set("x", "1");
    assert!(a.eq_cookies(&b));
    b.set("x", "3");
    assert!(!a.eq_cookies(&b));
    assert_eq!(a.repr(), "<Cookies[<Cookie x=1 for />, <Cookie y=2 for />]>");
}

#[test]
fn get_after_set_with_domain_and_path() {
    let mut c = Cookies::new();
    c.set_with_domain_path("n", "1", "a.com", "/x");
    c.set_with_domain_path("n", "2", "b.com", "/");
    c.set_with_domain_path("n", "3", "a.com", "/x");
    assert_eq!(c.get("n", None, Some("a.com"), Some("/x")).unwrap(), Some("3".to_string()));
    assert_eq!(c.len(), 2);
}
