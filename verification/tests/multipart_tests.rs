use requestx::multipart::{
    build_multipart_body_with_boundary, escape_filename, extract_boundary_from_content_type,
    file_field_from_reader, file_field_from_tuple, guess_content_type, DataField,
};

#[test]
fn content_types() {
    assert_eq!(guess_content_type("a.JSON"), "application/json");
    assert_eq!(guess_content_type("pic.jpeg"), "image/jpeg");
    assert_eq!(guess_content_type("noext"), "application/octet-stream");
}

#[test]
fn file_fields() {
    let f = file_field_from_tuple("f".to_string(), Some("a.txt".to_string()), b"x".to_vec(), None, vec![]);
    assert_eq!(f.content_type, "text/plain");
    let r = file_field_from_reader("g".to_string(), vec![]);
    assert_eq!(r.filename, Some("upload".to_string()));
    assert_eq!(r.content_type, "application/octet-stream");
}

#[test]
fn filenames_and_boundaries() {
    assert_eq!(escape_filename("a\"b\\c\n"), "a%22b\\\\c%0A");
    assert_eq!(extract_boundary_from_content_type("multipart/form-data; boundary=\"xyz\""), Some("xyz".to_string()));
    assert_eq!(extract_boundary_from_content_type("text/plain"), None);
}

#[test]
fn httpx_style_body() {
    let data = vec![DataField { name: "a".to_string(), values: vec![b"1".to_vec()] }];
    let files = vec![file_field_from_tuple("f".to_string(), Some("x.txt".to_string()), b"D".to_vec(), None, vec![])];
    let (body, b) = build_multipart_body_with_boundary(&data, &files, "B");
    assert_eq!(b, "B");
    let text = String::from_utf8(body).unwrap();
    assert!(text.starts_with("--B\r\nContent-Disposition: form-data; name=\"a\"\r\n\r\n1\r\n--B\r\n"));
    assert!(text.contains("filename=\"x.txt\""));
    assert!(text.contains("Content-Type: text/plain\r\n"));
    assert!(text.ends_with("--B--\r\n"));
}
