use requestx::header_compare::{eq_headers, eq_mapping, eq_pairs, repr};
use requestx::headers::{merge_encoding, HeaderEncoding, Headers};

fn h(pairs: &[(&str, &str)]) -> Headers {
    Headers::from_vec(pairs.iter().map(|(k, v)| (k.to_string(), v.to_string())).collect())
}

#[test]
fn set_then_get() {
    let mut x = Headers::new();
    x.set("Content-Type".to_string(), "text/plain".to_string());
    assert_eq!(x.get("content-type", None), Some("text/plain".to_string()));
    assert_eq!(x.get_all("CONTENT-TYPE"), vec!["text/plain".to_string()]);
}

#[test]
fn append_keeps_values_and_get_joins() {
    let mut x = Headers::new();
    x.append("Accept".to_string(), "a".to_string());
    x.append("accept".to_string(), "b".to_string());
    assert_eq!(x.get("Accept", None), Some("a, b".to_string()));
    assert_eq!(x.get_list("accept", false), vec!["a".to_string(), "b".to_string()]);
    x.remove("ACCEPT");
    assert!(!x.contains("accept"));
    assert_eq!(x.get("accept", Some("d")), Some("d".to_string()));
}

#[test]
fn set_item_replaces_first_and_drops_later() {
    let mut x = h(&[("a", "1"), ("b", "2"), ("A", "3")]);
    x.set_item("A".to_string(), "9".to_string());
    assert_eq!(x.multi_items(), vec![("a".to_string(), "9".to_string()), ("b".to_string(), "2".to_string())]);
}

#[test]
fn get_list_splits_commas() {
    let x = h(&[("x", "a, b"), ("x", "c")]);
    assert_eq!(x.get_list("x", true), vec!["a".to_string(), "b".to_string(), "c".to_string()]);
}

#[test]
fn insert_front_puts_header_first() {
    let mut x = h(&[("accept", "*/*")]);
    x.insert_front("Host".to_string(), "example.com".to_string());
    assert_eq!(x.multi_items()[0], ("Host".to_string(), "example.com".to_string()));
}

#[test]
fn equality_ignores_order_and_name_case() {
    let a = h(&[("A", "1"), ("b", "2")]);
    let b = h(&[("B", "2"), ("a", "1")]);
    assert!(eq_headers(&a, &b));
    let c = h(&[("a", "1"), ("a", "1"), ("b", "2")]);
    assert!(!eq_headers(&a, &c));
    assert!(eq_pairs(&a, &vec![("b".to_string(), "2".to_string()), ("A".to_string(), "1".to_string())]));
    assert!(!eq_pairs(&a, &vec![("b".to_string(), "2".to_string())]));
}

#[test]
fn equality_with_mapping_uses_last_value() {
    let a = h(&[("A", "1"), ("a", "2")]);
    assert!(eq_mapping(&a, &vec![("a".to_string(), "2".to_string())]));
    assert!(!eq_mapping(&a, &vec![("a".to_string(), "1".to_string())]));
}

#[test]
fn repr_masks_credentials() {
    let a = Headers::from_pairs(
        vec![("Authorization".to_string(), "secret".to_string()), ("x".to_string(), "1".to_string())],
        true,
        HeaderEncoding::Ascii,
    );
    assert_eq!(repr(&a), "Headers({'Authorization': '[secure]', 'x': '1'})");
    let b = h(&[("x", "1"), ("X", "2")]);
    assert_eq!(repr(&b), "Headers([('x', '1'), ('X', '2')])");
    let c = h(&[("x", "1")]);
    assert_eq!(repr(&c), "Headers({'x': '1'})");
}

#[test]
fn encodings_merge() {
    assert_eq!(merge_encoding(HeaderEncoding::Ascii, HeaderEncoding::Ascii, HeaderEncoding::Utf8), HeaderEncoding::Utf8);
    let x = Headers::new();
    assert_eq!(x.encoding(), "ascii");
}
