use requestx::headers::Headers;
use requestx::response_body::{response_body, ResponseContent};

#[test]
fn content_sets_its_length() {
    let mut h = Headers::new();
    let body = response_body(&mut h, Some(ResponseContent::Bytes(b"hello".to_vec())), None, None, None);
    assert_eq!(body, b"hello".to_vec());
    assert_eq!(h.get("content-length", None), Some("5".to_string()));
    assert_eq!(h.get("content-type", None), None);
}

#[test]
fn given_length_or_chunked_is_kept() {
    let mut h = Headers::new();
    h.set("Transfer-Encoding".to_string(), "chunked".to_string());
    let body = response_body(&mut h, Some(ResponseContent::Bytes(b"abc".to_vec())), None, None, None);
    assert_eq!(body, b"abc".to_vec());
    assert_eq!(h.get("content-length", None), None);
}

#[test]
fn stream_has_no_bytes_yet() {
    let mut h = Headers::new();
    let body = response_body(&mut h, Some(ResponseContent::Stream), None, None, None);
    assert!(body.is_empty());
    assert_eq!(h.get("content-length", None), Some("0".to_string()));
}

#[test]
fn text_html_and_json_set_their_type() {
    let mut h = Headers::new();
    let body = response_body(&mut h, None, Some("héllo"), None, None);
    assert_eq!(body, "héllo".as_bytes().to_vec());
    assert_eq!(h.get("content-length", None), Some("6".to_string()));
    assert_eq!(h.get("content-type", None), Some("text/plain; charset=utf-8".to_string()));

    let mut h2 = Headers::new();
    let body2 = response_body(&mut h2, None, Some("x"), Some("<p>"), Some("{\"a\":1}"));
    assert_eq!(body2, b"{\"a\":1}".to_vec());
    assert_eq!(h2.get("content-type", None), Some("application/json".to_string()));
    assert_eq!(h2.get("content-length", None), Some("7".to_string()));
    assert_eq!(h2.len(), 2);
}
