use requestx::body::{
    build_body, build_body_with_boundary, build_multipart_body, generate_boundary, write_part,
    BodyError, FilePart, RequestData,
};

fn file() -> FilePart {
    FilePart {
        field_name: "f".to_string(),
        filename: "x.txt".to_string(),
        content_type: None,
        data: b"DATA".to_vec(),
    }
}

const EXPECTED: &[u8] = b"--XYZ\r\nContent-Disposition: form-data; name=\"a\"\r\n\r\n1\r\n--XYZ\r\nContent-Disposition: form-data; name=\"f\"; filename=\"x.txt\"\r\nContent-Type: application/octet-stream\r\n\r\nDATA\r\n--XYZ--\r\n";

#[test]
fn multipart_layout() {
    let fields = vec![("a".to_string(), "1".to_string())];
    let body = build_multipart_body("XYZ", &fields, &[file()]);
    assert_eq!(body, EXPECTED.to_vec());
}

#[test]
fn single_part() {
    let mut body = Vec::new();
    write_part(&mut body, "B", "n", Some(("f.bin", "image/png")), b"x");
    assert_eq!(
        body,
        b"--B\r\nContent-Disposition: form-data; name=\"n\"; filename=\"f.bin\"\r\nContent-Type: image/png\r\n\r\nx\r\n".to_vec()
    );
}

#[test]
fn body_kinds() {
    let b = build_body_with_boundary(Some(RequestData::Form(vec![("a".to_string(), "1".to_string())])), None, Some(vec![file()]), "XYZ").unwrap();
    assert_eq!(b.body, EXPECTED.to_vec());
    assert!(b.has_content_type);
    assert_eq!(b.multipart_content_type, Some("multipart/form-data; boundary=XYZ".to_string()));

    let f = build_body_with_boundary(Some(RequestData::Form(vec![("k".to_string(), "a b".to_string())])), None, None, "B").unwrap();
    assert_eq!(f.body, b"k=a%20b".to_vec());
    assert!(f.has_content_type);

    let t = build_body_with_boundary(Some(RequestData::Text("hi".to_string())), None, None, "B").unwrap();
    assert_eq!(t.body, b"hi".to_vec());
    assert!(!t.has_content_type);

    let j = build_body_with_boundary(None, Some("{}".to_string()), None, "B").unwrap();
    assert_eq!(j.body, b"{}".to_vec());
    assert!(j.has_content_type);

    let e = build_body_with_boundary(None, None, None, "B").unwrap();
    assert!(e.body.is_empty());

    let fe = build_body_with_boundary(Some(RequestData::Form(vec![])), None, Some(vec![]), "B").unwrap();
    assert!(fe.body.is_empty());
    assert!(fe.has_content_type);
}

#[test]
fn body_errors() {
    let both = build_body_with_boundary(Some(RequestData::Text("x".to_string())), Some("1".to_string()), None, "B");
    assert_eq!(both.err(), Some(BodyError::DataAndJson));
    let odd = build_body_with_boundary(Some(RequestData::Bytes(vec![1])), None, Some(vec![]), "B");
    assert_eq!(odd.err(), Some(BodyError::InvalidCombination));
    assert_eq!(BodyError::DataAndJson.message(), "Cannot specify both data and json parameters");
    assert_eq!(BodyError::InvalidCombination.message(), "Invalid request data combination");
}

#[test]
fn generated_boundaries() {
    let b = generate_boundary();
    assert!(b.starts_with("----FormBoundary"));
    let tail = &b["----FormBoundary".len()..];
    let hex = &tail[tail.len() - 8..];
    assert!(hex.chars().all(|c| c.is_ascii_hexdigit() && !c.is_ascii_uppercase()));
    assert!(tail[..tail.len() - 8].chars().all(|c| c.is_ascii_digit()));
    let built = build_body(None, None, Some(vec![file()])).unwrap();
    let ct = built.multipart_content_type.unwrap();
    assert!(ct.starts_with("multipart/form-data; boundary=----FormBoundary"));
}
