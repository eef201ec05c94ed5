use requestx::error::{
    convert_reqwest_error_with_context, from_io, from_json, from_transport, from_url_parse, to_exception,
    Error, ErrorKind, Exception, IoFailure, TransportFacts,
};

fn facts(text: &str) -> TransportFacts {
    TransportFacts {
        text: text.to_string(),
        is_builder: false,
        is_timeout: false,
        is_connect: false,
        is_redirect: false,
        is_decode: false,
        is_request: false,
        status: None,
        url_scheme: None,
        url_text: None,
    }
}

#[test]
fn transport_classification() {
    let mut f = facts("operation timed out while Connecting");
    f.is_timeout = true;
    assert!(matches!(from_transport(&f).kind, ErrorKind::ConnectTimeout));
    let mut g = facts("timed out");
    g.is_timeout = true;
    assert!(matches!(from_transport(&g).kind, ErrorKind::Timeout));
    let mut p = facts("proxy failed");
    p.is_request = true;
    assert!(matches!(from_transport(&p).kind, ErrorKind::Proxy));
    let mut s = facts("bad");
    s.status = Some(404);
    assert!(matches!(from_transport(&s).kind, ErrorKind::Status(404)));
    assert_eq!(from_transport(&s).message, "bad");
    assert!(matches!(from_transport(&facts("x")).kind, ErrorKind::Request));
}

#[test]
fn io_and_parse_errors() {
    assert!(matches!(from_io(IoFailure::BrokenPipe, "p".to_string()).kind, ErrorKind::Write));
    assert!(matches!(from_io(IoFailure::ConnectionReset, "p".to_string()).kind, ErrorKind::Connect));
    assert!(matches!(from_io(IoFailure::UnexpectedEof, "p".to_string()).kind, ErrorKind::Read));
    assert!(matches!(from_io(IoFailure::Other, "p".to_string()).kind, ErrorKind::Transport));
    assert!(matches!(from_url_parse("u".to_string()).kind, ErrorKind::InvalidUrl));
    assert!(matches!(from_json("j".to_string()).kind, ErrorKind::Decode));
}

#[test]
fn exceptions() {
    let e = Error::status(404, "Not Found".to_string());
    assert_eq!(to_exception(&e), (Exception::HTTPStatusError, "Not Found (status code: 404)".to_string()));
    assert_eq!(to_exception(&Error::invalid_header("h".to_string())).0, Exception::RequestError);
    assert_eq!(to_exception(&Error::new(ErrorKind::Other("x".to_string()), "m".to_string())).0, Exception::RequestError);
    assert_eq!(to_exception(&Error::cookie_conflict("c".to_string())).0, Exception::CookieConflict);
}

#[test]
fn client_exception_classification() {
    let mut b = facts("builder error: URL scheme is not allowed");
    b.is_builder = true;
    b.url_scheme = Some("ftp".to_string());
    b.url_text = Some("ftp://x/".to_string());
    assert_eq!(
        convert_reqwest_error_with_context(&b, None),
        (Exception::UnsupportedProtocol, "Request URL has unsupported protocol 'ftp://': ftp://x/".to_string())
    );
    let mut t = facts("error sending request body");
    t.is_timeout = true;
    assert_eq!(convert_reqwest_error_with_context(&t, None).0, Exception::WriteTimeout);
    assert_eq!(convert_reqwest_error_with_context(&t, Some("pool")).0, Exception::PoolTimeout);
    let mut r = facts("timeout reading response body");
    r.is_timeout = true;
    assert_eq!(convert_reqwest_error_with_context(&r, None).0, Exception::ReadTimeout);
    let mut d = facts("dns error");
    d.is_timeout = true;
    assert_eq!(convert_reqwest_error_with_context(&d, None).0, Exception::ConnectTimeout);
    let mut c = facts("refused");
    c.is_connect = true;
    assert_eq!(convert_reqwest_error_with_context(&c, None).0, Exception::ConnectError);
    assert_eq!(convert_reqwest_error_with_context(&facts("?"), None).0, Exception::TransportError);
}
