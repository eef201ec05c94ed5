use requestx::queryparams::{plain_value_text, replace_pct20, PlainValue, QueryParams};

fn q(pairs: &[(&str, &str)]) -> QueryParams {
    QueryParams::from_pairs(pairs.iter().map(|(k, v)| (k.to_string(), v.to_string())).collect())
}

#[test]
fn parse_and_serialise() {
    let p = QueryParams::from_query_string("a=1&b=2&a=3&&c");
    assert_eq!(p.get_list("a"), vec!["1".to_string(), "3".to_string()]);
    assert_eq!(p.get("c", None), Some("".to_string()));
    assert_eq!(p.to_query_string(), "a=1&b=2&a=3&c=");
}

#[test]
fn spaces_are_encoded_as_plus() {
    let p = q(&[("q", "a b&c=d")]);
    assert_eq!(p.to_query_string(), "q=a+b%26c%3Dd");
    assert_eq!(replace_pct20("x%20y%2"), "x+y%2");
}

#[test]
fn percent_decoding_on_parse() {
    let p = QueryParams::from_query_string("k=%E2%82%AC&bad=%FF");
    assert_eq!(p.get("k", None), Some("\u{20ac}".to_string()));
    assert_eq!(p.get("bad", None), Some("%FF".to_string()));
}

#[test]
fn set_add_remove() {
    let mut p = q(&[("a", "1"), ("b", "2")]);
    p.add("a", "3");
    assert_eq!(p.get_list("a"), vec!["1".to_string(), "3".to_string()]);
    p.set("a", "9");
    assert_eq!(p.get_list("a"), vec!["9".to_string()]);
    assert_eq!(p.get("a", None), Some("9".to_string()));
    p.remove("a");
    assert!(!p.contains("a"));
    assert_eq!(p.get("a", Some("d")), Some("d".to_string()));
    assert_eq!(p.len(), 1);
}

#[test]
fn merge_replaces_keys() {
    let a = q(&[("a", "1"), ("b", "2")]);
    let b = q(&[("a", "x")]);
    let m = a.with_merged(&b);
    assert_eq!(m.to_query_string(), "b=2&a=x");
}

#[test]
fn keys_values_and_repr() {
    let p = q(&[("a", "1"), ("b", "2"), ("a", "3")]);
    assert_eq!(p.keys(), vec!["a".to_string(), "b".to_string()]);
    assert_eq!(p.values(), vec!["1".to_string(), "2".to_string()]);
    assert_eq!(p.repr(), "QueryParams('a=1&b=2&a=3')");
    assert_eq!(p.with_removed("a").to_str(), "b=2");
}

#[test]
fn query_string_round_trip() {
    let p = q(&[("a", "1"), ("\u{e9}t\u{e9}", "x/y&z=w"), ("a", ""), ("", "v")]);
    let back = QueryParams::from_query_string(&p.to_query_string());
    assert_eq!(back.multi_items(), p.multi_items());
}

#[test]
fn spaces_and_plus_signs_round_trip() {
    let p = q(&[("k", "a b"), ("x y", "1+2")]);
    assert_eq!(p.to_query_string(), "k=a+b&x+y=1%2B2");
    let back = QueryParams::from_query_string(&p.to_query_string());
    assert_eq!(back.multi_items(), p.multi_items());
    assert_eq!(QueryParams::from_query_string("q=a+b").get("q", None), Some("a b".to_string()));
}

#[test]
fn plain_values_have_their_usual_text() {
    assert_eq!(plain_value_text(PlainValue::Null), "");
    assert_eq!(plain_value_text(PlainValue::Bool(true)), "true");
    assert_eq!(plain_value_text(PlainValue::Bool(false)), "false");
    assert_eq!(plain_value_text(PlainValue::Int(-42)), "-42");
    assert_eq!(plain_value_text(PlainValue::Int(i64::MIN)), "-9223372036854775808");
    assert_eq!(plain_value_text(PlainValue::Int(7)), "7");
    assert_eq!(plain_value_text(PlainValue::Text("a b".to_string())), "a b");
}
