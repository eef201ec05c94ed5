use requestx::ci_headers::CaseInsensitiveHeaders;
use std::collections::HashMap;

#[test]
fn test_insert_and_get() {
    let mut headers = CaseInsensitiveHeaders::new();
    headers.insert("Content-Type".to_string(), "application/json".to_string());
    assert_eq!(headers.get("content-type"), Some(&"application/json".to_string()));
    assert_eq!(headers.get("CONTENT-TYPE"), Some(&"application/json".to_string()));
    assert_eq!(headers.get("Content-Type"), Some(&"application/json".to_string()));
    assert_eq!(headers.get("accept"), None);
}

#[test]
fn test_preserve_casing() {
    let mut headers = CaseInsensitiveHeaders::new();
    headers.insert("X-Custom-Header".to_string(), "value".to_string());
    let keys: Vec<String> = headers.keys();
    assert!(keys.iter().any(|k| *k == "X-Custom-Header"));
}

#[test]
fn test_remove() {
    let mut headers = CaseInsensitiveHeaders::new();
    headers.insert("Content-Type".to_string(), "application/json".to_string());
    assert!(headers.remove("content-type"));
    assert!(headers.is_empty());
    assert!(!headers.remove("accept"));
}

#[test]
fn test_from_hashmap() {
    let mut map = HashMap::new();
    map.insert("Content-Type".to_string(), "text/html".to_string());
    map.insert("Authorization".to_string(), "Bearer token".to_string());
    let headers = CaseInsensitiveHeaders::from_hashmap(map.into_iter().collect());
    assert_eq!(headers.len(), 2);
    assert_eq!(headers.get("content-type"), Some(&"text/html".to_string()));
    assert_eq!(headers.get("authorization"), Some(&"Bearer token".to_string()));
}

#[test]
fn spellings_that_differ_in_case_are_one_header() {
    let mut headers = CaseInsensitiveHeaders::new();
    headers.insert("Content-Type".to_string(), "a".to_string());
    headers.insert("content-type".to_string(), "b".to_string());
    assert_eq!(headers.len(), 1);
    assert_eq!(headers.get("CONTENT-TYPE"), Some(&"b".to_string()));
    assert_eq!(headers.values(), vec!["b".to_string()]);
    assert_eq!(headers.keys(), vec!["content-type".to_string()]);
    assert!(headers.remove("Content-Type"));
    assert!(headers.is_empty());
    assert!(!headers.contains_key("content-type"));
}

#[test]
fn reinserting_same_spelling_replaces_value() {
    let mut headers = CaseInsensitiveHeaders::default();
    headers.insert("X".to_string(), "1".to_string());
    headers.insert("X".to_string(), "2".to_string());
    assert_eq!(headers.len(), 1);
    assert_eq!(headers.values(), vec!["2".to_string()]);
    assert_eq!(headers.iter(), vec![("X".to_string(), "2".to_string())]);
    headers.clear();
    assert!(headers.is_empty());
}

#[test]
fn get_mut_changes_only_the_found_value() {
    let mut headers = CaseInsensitiveHeaders::new();
    headers.insert("Content-Type".to_string(), "text/plain".to_string());
    headers.insert("Accept".to_string(), "*/*".to_string());
    match headers.get_mut("CONTENT-type") {
        Some(v) => *v = "application/json".to_string(),
        None => panic!("header should be found"),
    }
    assert_eq!(headers.get("content-type"), Some(&"application/json".to_string()));
    assert_eq!(headers.get("accept"), Some(&"*/*".to_string()));
    assert_eq!(headers.len(), 2);
    assert!(headers.get_mut("missing").is_none());
}

#[test]
fn inserting_one_name_leaves_other_names_alone() {
    let mut headers = CaseInsensitiveHeaders::new();
    headers.insert("Content-Type".to_string(), "text/html".to_string());
    headers.insert("X-Other".to_string(), "1".to_string());
    assert_eq!(headers.get("content-type"), Some(&"text/html".to_string()));
    assert_eq!(headers.get("x-other"), Some(&"1".to_string()));
}
