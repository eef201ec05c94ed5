use requestx::redirect::{get_redirect_method, Method};
use requestx::status::{is_client_error, is_informational, is_redirect_class, is_server_error, is_success};

#[test]
fn every_status_code_has_one_class() {
    for code in 100u16..600 {
        let n = [is_informational(code), is_success(code), is_redirect_class(code), is_client_error(code), is_server_error(code)]
            .iter()
            .filter(|b| **b)
            .count();
        assert_eq!(n, 1, "code {}", code);
    }
}

#[test]
fn redirects_keep_the_method_or_switch_to_get() {
    let methods = [Method::GET, Method::POST, Method::PUT, Method::HEAD, Method::DELETE, Method::PATCH];
    for code in [301u16, 302, 303, 307, 308, 300, 304] {
        for m in methods.iter() {
            let r = get_redirect_method(m, code);
            assert!(r == *m || r == Method::GET);
            if code == 307 || code == 308 {
                assert_eq!(r, *m);
            }
        }
    }
}
