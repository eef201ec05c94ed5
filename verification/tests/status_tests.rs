use requestx::status::{
    codes, is_client_error, is_error, is_informational, is_redirect_class, is_server_error, is_success,
    name_to_code, raise_for_status_message, reason_phrase,
};

#[test]
fn names_and_phrases() {
    assert_eq!(name_to_code("not_found"), Some(404));
    assert_eq!(name_to_code("IM_A_TEAPOT"), Some(418));
    assert_eq!(name_to_code("nope"), None);
    assert_eq!(reason_phrase(418), "I'm a teapot");
    assert_eq!(reason_phrase(299), "");
    assert_eq!(codes::lookup("OK"), Some(200));
    assert_eq!(codes::get_reason_phrase(503), "Service Unavailable");
}

#[test]
fn classes() {
    assert!(is_informational(101));
    assert!(is_success(204));
    assert!(is_redirect_class(304));
    assert!(is_client_error(404) && is_error(404));
    assert!(is_server_error(500) && is_error(500));
    assert!(!is_error(399));
}

#[test]
fn status_messages() {
    assert_eq!(raise_for_status_message(200, "u", None), None);
    assert_eq!(
        raise_for_status_message(404, "https://x/", None).unwrap(),
        "Client error '404 Not Found' for url 'https://x/'\nFor more information check: https://developer.mozilla.org/en-US/docs/Web/HTTP/Status/404"
    );
    assert_eq!(
        raise_for_status_message(301, "u", Some("/n")).unwrap(),
        "Redirect response '301 Moved Permanently' for url 'u'\nRedirect location: '/n'\nFor more information check: https://developer.mozilla.org/en-US/docs/Web/HTTP/Status/301"
    );
}
