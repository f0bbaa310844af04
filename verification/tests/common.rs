use stryke_aws::common::emit_ndjson_line;
use stryke_aws::json::Json;
use stryke_aws::uri::parse_s3_uri;
use stryke_aws::wire::parse_json;

fn j(text: &str) -> Json {
    parse_json(text).unwrap()
}

#[test]
fn parse_s3_uri_bucket_and_key() {
    let (b, k) = parse_s3_uri("s3://my-bucket/path/to/file.txt").unwrap();
    assert_eq!(b, "my-bucket");
    assert_eq!(k, "path/to/file.txt");
}

#[test]
fn parse_s3_uri_bucket_only_returns_empty_key() {
    let (b, k) = parse_s3_uri("s3://just-bucket").unwrap();
    assert_eq!(b, "just-bucket");
    assert_eq!(k, "");
}

#[test]
fn parse_s3_uri_trailing_slash_yields_empty_key() {
    let (b, k) = parse_s3_uri("s3://bucket/").unwrap();
    assert_eq!(b, "bucket");
    assert_eq!(k, "");
}

#[test]
fn parse_s3_uri_preserves_internal_slashes() {
    let (b, k) = parse_s3_uri("s3://b/a/b/c/d").unwrap();
    assert_eq!(b, "b");
    // The cut is at the first slash, so the rest is the key as it stands.
    assert_eq!(k, "a/b/c/d");
}

#[test]
fn parse_s3_uri_missing_scheme_errors() {
    let err = parse_s3_uri("https://bucket/key").unwrap_err();
    let msg = format!("{err}");
    assert!(msg.contains("s3://"), "msg = {msg}");
    assert_eq!(msg, "expected `s3://bucket/key…`, got `https://bucket/key`");
}

#[test]
fn parse_s3_uri_wrong_scheme_errors() {
    assert!(parse_s3_uri("S3://bucket/key").is_err()); // case-sensitive
    assert!(parse_s3_uri("/just/a/path").is_err());
    assert!(parse_s3_uri("").is_err());
}

#[test]
fn emit_ndjson_line_appends_single_newline() {
    let mut buf = Vec::new();
    emit_ndjson_line(&mut buf, &j(r#"{"k": 1}"#)).unwrap();
    let s = String::from_utf8(buf).unwrap();
    assert_eq!(s, "{\"k\":1}\n");
}

#[test]
fn emit_ndjson_line_multiple_calls() {
    let mut buf = Vec::new();
    for i in 0..3 {
        emit_ndjson_line(&mut buf, &j(&format!("{{\"i\": {i}}}"))).unwrap();
    }
    let s = String::from_utf8(buf).unwrap();
    assert_eq!(s.lines().count(), 3);
    assert!(s.ends_with('\n'));
}

#[test]
fn a_newline_in_a_text_does_not_break_the_line() {
    let mut buf = Vec::new();
    emit_ndjson_line(&mut buf, &Json::text("one\ntwo \u{10348} \u{a0a}")).unwrap();
    assert_eq!(buf.iter().filter(|b| **b == 0x0a).count(), 1);
    assert_eq!(String::from_utf8(buf).unwrap(), "\"one\\ntwo \u{10348} \u{a0a}\"\n");
}
