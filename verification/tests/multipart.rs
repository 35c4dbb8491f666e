use dicom_archive::utils::multipart::{
    decode_parts, parse_boundary, parse_related_message, random_boundary, MultipartError, Part,
    Related, RelatedConfig,
};

#[test]
fn boundary_without_forbidden_characters_is_accepted() {
    assert!(RelatedConfig::new(String::from("simple-boundary_1.2")).is_ok());
}

#[test]
fn boundary_with_space_is_rejected() {
    let r = RelatedConfig::new(String::from("a b"));
    assert!(matches!(r, Err(MultipartError::InvalidBoundary(_))));
}

#[test]
fn boundary_with_quote_is_rejected() {
    let r = RelatedConfig::new(String::from("a\"b"));
    assert!(matches!(r, Err(MultipartError::InvalidBoundary(_))));
}

#[test]
fn boundary_with_tab_is_rejected() {
    let r = RelatedConfig::new(String::from("a\tb"));
    assert!(matches!(r, Err(MultipartError::InvalidBoundary(_))));
}

#[test]
fn boundary_with_backslash_is_rejected() {
    let r = RelatedConfig::new(String::from("a\\b"));
    assert!(matches!(r, Err(MultipartError::InvalidBoundary(_))));
}

#[test]
fn random_boundary_is_always_acceptable() {
    let b = random_boundary();
    assert_eq!(b.chars().count(), 36);
    assert!(RelatedConfig::new(b).is_ok());
}

#[test]
fn empty_message_is_rejected() {
    let config = RelatedConfig::new(String::from("b")).unwrap();
    let related = Related::new(config);
    assert!(matches!(related.build(), Err(MultipartError::EmptyMessage)));
}

#[test]
fn missing_start_id_is_rejected() {
    let config = RelatedConfig::new(String::from("b")).unwrap().start("root");
    let mut related = Related::new(config);
    related.add_part(Part::new("text/plain", b"x".to_vec()).with_id("other"));
    assert!(matches!(related.build(), Err(MultipartError::StartNotFound(_))));
}

#[test]
fn present_start_id_is_accepted() {
    let config = RelatedConfig::new(String::from("b")).unwrap().start("root");
    let mut related = Related::new(config);
    related.add_part(Part::new("text/plain", b"x".to_vec()).with_id("root"));
    assert!(related.build().is_ok());
}

#[test]
fn encode_writes_the_exact_wire_format() {
    let config = RelatedConfig::new(String::from("b")).unwrap();
    let mut related = Related::new(config);
    related.add_part(Part::new("text/plain", b"hi".to_vec()).with_id("1"));
    let bytes = related.build().unwrap();
    let expected = b"--b\r\nContent-Type: text/plain\r\nContent-ID: <1>\r\n\r\nhi\r\n--b--\r\n";
    assert_eq!(bytes, expected.to_vec());
}

#[test]
fn build_content_type_carries_boundary_type_and_start() {
    let config = RelatedConfig::new(String::from("xyz"))
        .unwrap()
        .root_type("application/dicom")
        .start("root");
    let related = Related::new(config);
    assert_eq!(
        related.build_content_type(),
        "multipart/related; boundary=xyz; type=\"application/dicom\"; start=\"<root>\""
    );
}

#[test]
fn round_trip_three_parts() {
    let config = RelatedConfig::new(String::from("frontier-77")).unwrap();
    let mut related = Related::new(config);
    related.add_part(Part::new("application/dicom", b"payload-one".to_vec()));
    related.add_part(
        Part::new("application/octet-stream", b"two\x00\x01\x02".to_vec()).with_id("f2"),
    );
    related.add_part(
        Part::new("text/plain", Vec::new()).with_id("f3").with_encoding("binary"),
    );
    let bytes = related.build().unwrap();
    let parts = decode_parts("frontier-77", &bytes).unwrap();
    assert_eq!(parts.len(), 3);
    assert_eq!(parts[0].content_type, b"application/dicom".to_vec());
    assert_eq!(parts[0].body, b"payload-one".to_vec());
    assert_eq!(parts[0].content_id, None);
    assert_eq!(parts[0].encoding, None);
    assert_eq!(parts[1].content_type, b"application/octet-stream".to_vec());
    assert_eq!(parts[1].body, b"two\x00\x01\x02".to_vec());
    assert_eq!(parts[1].content_id, Some(b"f2".to_vec()));
    assert_eq!(parts[2].content_id, Some(b"f3".to_vec()));
    assert_eq!(parts[2].encoding, Some(b"binary".to_vec()));
    assert_eq!(parts[2].body, Vec::<u8>::new());
}

#[test]
fn round_trip_body_with_boundary_like_bytes() {
    // a payload may contain delimiter-looking bytes for another boundary
    let config = RelatedConfig::new(String::from("real")).unwrap();
    let mut related = Related::new(config);
    related.add_part(Part::new("application/octet-stream", b"x\r\n--other\r\ny".to_vec()));
    let bytes = related.build().unwrap();
    let parts = decode_parts("real", &bytes).unwrap();
    assert_eq!(parts.len(), 1);
    assert_eq!(parts[0].body, b"x\r\n--other\r\ny".to_vec());
}

#[test]
fn decode_rejects_garbage() {
    let r = decode_parts("b", &b"not a multipart message".to_vec());
    assert!(matches!(r, Err(MultipartError::MalformedMessage)));
}

#[test]
fn parse_boundary_reads_the_parameter() {
    assert_eq!(
        parse_boundary("multipart/related; boundary=xyz").unwrap(),
        "xyz"
    );
}

#[test]
fn parse_boundary_strips_quotes() {
    assert_eq!(
        parse_boundary("multipart/related; type=\"application/dicom\"; boundary=\"q-1\"").unwrap(),
        "q-1"
    );
}

#[test]
fn parse_boundary_ignores_the_kind_case() {
    assert_eq!(
        parse_boundary("MULTIPART/RELATED; boundary=x").unwrap(),
        "x"
    );
    assert_eq!(
        parse_boundary("Multipart/Related; boundary=x").unwrap(),
        "x"
    );
}

#[test]
fn parse_boundary_ignores_the_parameter_name_case() {
    assert_eq!(
        parse_boundary("multipart/related; BOUNDARY=x").unwrap(),
        "x"
    );
    assert_eq!(
        parse_boundary("multipart/related; Boundary=\"q-1\"").unwrap(),
        "q-1"
    );
}

#[test]
fn parse_boundary_tolerates_whitespace_around_parameters() {
    assert_eq!(
        parse_boundary("multipart/related;  boundary=\"q-1\" ; type=\"application/dicom\"")
            .unwrap(),
        "q-1"
    );
}

#[test]
fn parse_boundary_keeps_the_value_case() {
    assert_eq!(
        parse_boundary("multipart/related; boundary=MiXeD").unwrap(),
        "MiXeD"
    );
}

#[test]
fn parse_related_message_accepts_an_uppercase_kind() {
    let config = RelatedConfig::new(String::from("up")).unwrap();
    let mut related = Related::new(config);
    related.add_part(Part::new("application/dicom", b"one".to_vec()));
    let bytes = related.build().unwrap();
    let mut body =
        parse_related_message("MULTIPART/RELATED; boundary=up", &bytes).unwrap();
    let first = body.next_field().unwrap();
    assert_eq!(first.body, b"one".to_vec());
}

#[test]
fn parse_boundary_rejects_other_types() {
    let r = parse_boundary("application/json");
    assert!(matches!(r, Err(MultipartError::NotMultipartRelated)));
}

#[test]
fn parse_boundary_rejects_missing_parameter() {
    let r = parse_boundary("multipart/related; type=\"application/dicom\"");
    assert!(matches!(r, Err(MultipartError::NotMultipartRelated)));
}

#[test]
fn parse_related_message_round_trip() {
    let config = RelatedConfig::new(String::from("edge")).unwrap();
    let mut related = Related::new(config);
    related.add_part(Part::new("application/dicom", b"one".to_vec()));
    related.add_part(Part::new("application/dicom", b"two".to_vec()));
    let content_type = related.build_content_type();
    let bytes = related.build().unwrap();
    let mut body = parse_related_message(&content_type, &bytes).unwrap();
    let first = body.next_field().unwrap();
    assert_eq!(first.body, b"one".to_vec());
    let second = body.next_field().unwrap();
    assert_eq!(second.body, b"two".to_vec());
    assert!(body.next_field().is_none());
}
