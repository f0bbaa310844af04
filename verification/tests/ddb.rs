use base64::engine::general_purpose::STANDARD as B64;
use base64::Engine as _;
use stryke_aws::attribute::AttributeValue;
use stryke_aws::ddb::av_map_to_json;
use stryke_aws::ddb::av_to_json;
use stryke_aws::ddb::json_obj_to_av_map;
use stryke_aws::ddb::json_to_av;
use stryke_aws::ddb::parse_names;
use stryke_aws::ddb::parse_vals;
use stryke_aws::json::Json;
use stryke_aws::wire::parse_json;

fn j(text: &str) -> Json {
    parse_json(text).unwrap()
}

fn at<'a>(item: &'a [(String, AttributeValue)], name: &str) -> Option<&'a AttributeValue> {
    item.iter().find(|field| field.0 == name).map(|field| &field.1)
}

fn name_at<'a>(names: &'a [(String, String)], name: &str) -> Option<&'a str> {
    names.iter().find(|field| field.0 == name).map(|field| field.1.as_str())
}

#[test]
fn json_to_av_null_becomes_null_true() {
    match json_to_av(&Json::Null) {
        AttributeValue::Null(b) => assert!(b),
        other => panic!("expected Null, got {other:?}"),
    }
}

#[test]
fn json_to_av_bool() {
    match json_to_av(&j("true")) {
        AttributeValue::Bool(b) => assert!(b),
        other => panic!("expected Bool, got {other:?}"),
    }
}

#[test]
fn json_to_av_number_preserves_string_form() {
    // Numbers are stored as texts; this preserves precision.
    match json_to_av(&j("123")) {
        AttributeValue::N(s) => assert_eq!(s, "123"),
        other => panic!("expected N, got {other:?}"),
    }
    match json_to_av(&j("3.14")) {
        AttributeValue::N(s) => assert_eq!(s, "3.14"),
        other => panic!("expected N, got {other:?}"),
    }
}

#[test]
fn json_to_av_string_plain() {
    match json_to_av(&j("\"hello\"")) {
        AttributeValue::S(s) => assert_eq!(s, "hello"),
        other => panic!("expected S, got {other:?}"),
    }
}

#[test]
fn json_to_av_base64_prefixed_string_becomes_binary() {
    let raw = b"hello world";
    let encoded = format!("base64:{}", B64.encode(raw));
    match json_to_av(&Json::text(&encoded)) {
        AttributeValue::B(blob) => assert_eq!(blob.as_slice(), raw),
        other => panic!("expected B, got {other:?}"),
    }
}

#[test]
fn json_to_av_invalid_base64_prefix_stays_string() {
    // What cannot be decoded is kept as it stands.
    let s = "base64:!!!not valid base64!!!";
    match json_to_av(&Json::text(s)) {
        AttributeValue::S(got) => assert_eq!(got, s),
        other => panic!("expected S fallback, got {other:?}"),
    }
}

#[test]
fn json_to_av_nested_object_becomes_map() {
    match json_to_av(&j(r#"{"x": 1, "y": "z"}"#)) {
        AttributeValue::M(m) => {
            assert_eq!(m.len(), 2);
            assert!(matches!(at(&m, "x"), Some(AttributeValue::N(_))));
            assert!(matches!(at(&m, "y"), Some(AttributeValue::S(_))));
        }
        other => panic!("expected M, got {other:?}"),
    }
}

#[test]
fn json_to_av_array_becomes_list() {
    match json_to_av(&j(r#"[1, "a", true]"#)) {
        AttributeValue::L(l) => assert_eq!(l.len(), 3),
        other => panic!("expected L, got {other:?}"),
    }
}

#[test]
fn av_to_json_number_parses_to_i64_when_possible() {
    let av = AttributeValue::N("42".to_string());
    assert_eq!(av_to_json(&av), j("42"));
}

#[test]
fn av_to_json_number_parses_to_f64_for_decimals() {
    let av = AttributeValue::N("3.5".to_string());
    assert_eq!(av_to_json(&av), j("3.5"));
}

#[test]
fn av_to_json_number_oversized_falls_back_to_string() {
    // What is neither a whole nor a floating-point number is handed back as it stands.
    let av = AttributeValue::N("not-a-number".to_string());
    assert_eq!(av_to_json(&av), Json::Text("not-a-number".to_string()));
}

#[test]
fn av_to_json_binary_encodes_with_base64_prefix() {
    let av = AttributeValue::B(b"abc".to_vec());
    let json = av_to_json(&av);
    let s = json.as_str().unwrap();
    assert!(s.starts_with("base64:"), "s = {s}");
    let decoded = B64.decode(s.strip_prefix("base64:").unwrap()).unwrap();
    assert_eq!(decoded, b"abc");
}

#[test]
fn av_to_json_null_variant() {
    assert_eq!(av_to_json(&AttributeValue::Null(true)), Json::Null);
}

#[test]
fn av_to_json_string_set() {
    let av = AttributeValue::Ss(vec!["a".into(), "b".into()]);
    assert_eq!(av_to_json(&av), j(r#"["a", "b"]"#));
}

#[test]
fn av_to_json_number_set_parses_each_entry() {
    let av = AttributeValue::Ns(vec!["1".into(), "2.5".into(), "nope".into()]);
    assert_eq!(av_to_json(&av), j(r#"[1, 2.5, "nope"]"#));
}

#[test]
fn json_av_round_trip_scalars() {
    for v in [j("null"), j("true"), j("42"), j("\"hi\""), j("2.5")] {
        let round = av_to_json(&json_to_av(&v));
        assert_eq!(round, v, "value {v:?} did not round-trip");
    }
}

#[test]
fn json_av_round_trip_nested_map() {
    let v = j(r#"{"id": 1, "name": "x", "tags": ["a", "b"], "active": true}"#);
    let round = av_to_json(&json_to_av(&v));
    assert_eq!(round, v);
}

#[test]
fn json_av_round_trip_binary_via_base64_prefix() {
    let encoded = format!("base64:{}", B64.encode(b"raw bytes"));
    let v = Json::text(&encoded);
    let round = av_to_json(&json_to_av(&v));
    assert_eq!(round, v);
}

#[test]
fn json_obj_to_av_map_simple() {
    let m = json_obj_to_av_map(r#"{"id":42,"name":"x"}"#).unwrap();
    assert_eq!(m.len(), 2);
    assert!(matches!(at(&m, "id"), Some(AttributeValue::N(_))));
    assert!(matches!(at(&m, "name"), Some(AttributeValue::S(_))));
}

#[test]
fn json_obj_to_av_map_array_rejected() {
    let err = json_obj_to_av_map("[1,2,3]").unwrap_err();
    assert!(format!("{err}").contains("object"));
}

#[test]
fn json_obj_to_av_map_string_rejected() {
    let err = json_obj_to_av_map(r#""nope""#).unwrap_err();
    assert!(format!("{err}").contains("object"));
}

#[test]
fn json_obj_to_av_map_invalid_json_errors() {
    let err = json_obj_to_av_map("{not json}").unwrap_err();
    assert!(format!("{err}").to_lowercase().contains("parsing"));
}

#[test]
fn av_map_to_json_emits_object() {
    let m = vec![
        ("a".to_string(), AttributeValue::N("1".into())),
        ("b".to_string(), AttributeValue::S("two".into())),
    ];
    let v = av_map_to_json(&m);
    assert_eq!(v.get("a"), Some(&j("1")));
    assert_eq!(v.get("b"), Some(&j("\"two\"")));
}

#[test]
fn parse_vals_none_returns_none() {
    let got = parse_vals(None).unwrap();
    assert!(got.is_none());
}

#[test]
fn parse_vals_parses_json_object() {
    let got = parse_vals(Some(r#"{":id":42}"#)).unwrap().unwrap();
    assert!(matches!(at(&got, ":id"), Some(AttributeValue::N(_))));
}

#[test]
fn parse_names_none_returns_none() {
    let got = parse_names(None).unwrap();
    assert!(got.is_none());
}

#[test]
fn parse_names_parses_string_map() {
    let got = parse_names(Some(r##"{"#x":"alias"}"##)).unwrap().unwrap();
    assert_eq!(name_at(&got, "#x"), Some("alias"));
}

#[test]
fn parse_names_array_rejected() {
    let err = parse_names(Some(r#"["a","b"]"#)).unwrap_err();
    assert!(format!("{err}").contains("object"));
}

#[test]
fn parse_names_non_string_value_falls_back_to_empty() {
    // A value that is not a text counts as an empty one and is no error.
    let got = parse_names(Some(r##"{"#x":123}"##)).unwrap().unwrap();
    assert_eq!(name_at(&got, "#x"), Some(""));
}

#[test]
fn av_to_json_bool_false() {
    assert_eq!(av_to_json(&AttributeValue::Bool(false)), j("false"));
}

#[test]
fn av_to_json_list_recurses() {
    let av = AttributeValue::L(vec![
        AttributeValue::N("1".into()),
        AttributeValue::S("a".into()),
    ]);
    assert_eq!(av_to_json(&av), j(r#"[1, "a"]"#));
}

#[test]
fn av_to_json_map_object() {
    let m = vec![("k".into(), AttributeValue::S("v".into()))];
    assert_eq!(av_to_json(&AttributeValue::M(m)).get("k"), Some(&j("\"v\"")));
}

#[test]
fn json_to_av_string_array_becomes_list_not_ss() {
    match json_to_av(&j(r#"["x", "y"]"#)) {
        AttributeValue::L(items) => {
            assert_eq!(items.len(), 2);
            assert!(matches!(&items[0], AttributeValue::S(s) if s == "x"));
        }
        other => panic!("expected L, got {other:?}"),
    }
}

#[test]
fn json_to_av_empty_array_becomes_empty_list() {
    match json_to_av(&j("[]")) {
        AttributeValue::L(l) => assert!(l.is_empty()),
        other => panic!("expected L, got {other:?}"),
    }
}

#[test]
fn parse_vals_invalid_json_errors() {
    let err = parse_vals(Some("{bad")).unwrap_err();
    assert!(format!("{err}").to_lowercase().contains("parsing"));
}

#[test]
fn av_map_to_json_empty_map() {
    let v = av_map_to_json(&vec![]);
    assert!(matches!(v, Json::Object(fields) if fields.is_empty()));
}

#[test]
fn json_av_round_trip_empty_object() {
    let v = j("{}");
    assert_eq!(av_to_json(&json_to_av(&v)), v);
}

#[test]
fn av_to_json_binary_set_base64_prefixes() {
    let av = AttributeValue::Bs(vec![b"a".to_vec(), b"bb".to_vec()]);
    match av_to_json(&av) {
        Json::Array(arr) => {
            assert_eq!(arr.len(), 2);
            assert!(arr[0].as_str().unwrap().starts_with("base64:"));
            assert!(arr[1].as_str().unwrap().starts_with("base64:"));
        }
        other => panic!("expected an array, got {other:?}"),
    }
}

#[test]
fn av_to_json_number_set_non_numeric_entry() {
    let av = AttributeValue::Ns(vec!["1".into(), "x".into()]);
    assert_eq!(av_to_json(&av), j(r#"[1, "x"]"#));
}

#[test]
fn json_to_av_negative_number_string_form() {
    match json_to_av(&j("-42")) {
        AttributeValue::N(s) => assert_eq!(s, "-42"),
        other => panic!("expected N, got {other:?}"),
    }
}

#[test]
fn json_av_round_trip_nested_list_in_map() {
    let v = j(r#"{"items": [1, 2]}"#);
    assert_eq!(av_to_json(&json_to_av(&v)), v);
}

#[test]
fn parse_vals_empty_object() {
    let got = parse_vals(Some("{}")).unwrap().unwrap();
    assert!(got.is_empty());
}

#[test]
fn parse_names_empty_object() {
    let got = parse_names(Some("{}")).unwrap().unwrap();
    assert!(got.is_empty());
}

#[test]
fn av_to_json_large_integer_n_stays_string_when_f64_loses_precision() {
    let big = "9007199254740993"; // not exactly representable as a floating-point number
    let av = AttributeValue::N(big.into());
    let json = av_to_json(&av);
    // A number or the text as it stands, but no panic.
    assert!(matches!(json, Json::Number(_)) || json.as_str() == Some(big));
}

#[test]
fn json_to_av_false_bool() {
    match json_to_av(&j("false")) {
        AttributeValue::Bool(b) => assert!(!b),
        other => panic!("expected Bool, got {other:?}"),
    }
}

#[test]
fn json_obj_to_av_map_rejects_array() {
    let err = json_obj_to_av_map("[1]").unwrap_err();
    assert!(format!("{err}").contains("object"));
}

#[test]
fn av_map_to_json_two_entries() {
    let m = vec![
        ("a".into(), AttributeValue::Bool(true)),
        ("b".into(), AttributeValue::N("9".into())),
    ];
    let v = av_map_to_json(&m);
    assert_eq!(v.get("a"), Some(&j("true")));
    assert_eq!(v.get("b"), Some(&j("9")));
}

#[test]
fn av_to_json_empty_list() {
    assert_eq!(av_to_json(&AttributeValue::L(vec![])), j("[]"));
}

#[test]
fn av_to_json_empty_map() {
    assert_eq!(av_to_json(&AttributeValue::M(vec![])), j("{}"));
}

#[test]
fn json_obj_to_av_map_nested_object() {
    let m = json_obj_to_av_map(r#"{"outer":{"inner":1}}"#).unwrap();
    assert!(matches!(at(&m, "outer"), Some(AttributeValue::M(_))));
}

#[test]
fn av_to_json_ns_all_parse_as_numbers() {
    let av = AttributeValue::Ns(vec!["1".into(), "2".into(), "3".into()]);
    assert_eq!(av_to_json(&av), j("[1, 2, 3]"));
}

#[test]
fn parse_vals_none_stays_none() {
    assert!(parse_vals(None).unwrap().is_none());
}

#[test]
fn json_to_av_string_without_base64_prefix() {
    match json_to_av(&j("\"plain\"")) {
        AttributeValue::S(s) => assert_eq!(s, "plain"),
        other => panic!("expected S, got {other:?}"),
    }
}

#[test]
fn json_to_av_negative_number_string() {
    match json_to_av(&j("-7")) {
        AttributeValue::N(s) => assert_eq!(s, "-7"),
        other => panic!("expected N, got {other:?}"),
    }
}

#[test]
fn av_to_json_bool_true() {
    assert_eq!(av_to_json(&AttributeValue::Bool(true)), j("true"));
}

#[test]
fn json_to_av_nested_array_in_map() {
    let m = json_obj_to_av_map(r#"{"items":[1,2]}"#).unwrap();
    match at(&m, "items") {
        Some(AttributeValue::L(list)) => assert_eq!(list.len(), 2),
        other => panic!("expected L, got {other:?}"),
    }
}

#[test]
fn av_to_json_ss_set_of_strings() {
    let av = AttributeValue::Ss(vec!["a".into(), "b".into()]);
    assert_eq!(av_to_json(&av), j(r#"["a", "b"]"#));
}

#[test]
fn json_to_av_empty_object_map() {
    match json_to_av(&j("{}")) {
        AttributeValue::M(m) => assert!(m.is_empty()),
        other => panic!("expected M, got {other:?}"),
    }
}

#[test]
fn json_to_av_zero_number() {
    match json_to_av(&j("0")) {
        AttributeValue::N(s) => assert_eq!(s, "0"),
        other => panic!("expected N, got {other:?}"),
    }
}

#[test]
fn av_to_json_ns_empty_set() {
    assert_eq!(av_to_json(&AttributeValue::Ns(vec![])), j("[]"));
}

#[test]
fn av_to_json_binary_empty_blob() {
    let av = AttributeValue::B(b"".to_vec());
    let json = av_to_json(&av);
    let s = json.as_str().unwrap();
    assert!(s.starts_with("base64:"));
}

#[test]
fn json_to_av_true_bool() {
    assert!(matches!(json_to_av(&j("true")), AttributeValue::Bool(true)));
}

#[test]
fn av_to_json_l_list_nested() {
    let av = AttributeValue::L(vec![
        AttributeValue::N("1".into()),
        AttributeValue::S("a".into()),
    ]);
    assert_eq!(av_to_json(&av), j(r#"[1, "a"]"#));
}

#[test]
fn json_to_av_float_number_string() {
    match json_to_av(&j("1.25")) {
        AttributeValue::N(s) => assert_eq!(s, "1.25"),
        other => panic!("expected N, got {other:?}"),
    }
}

#[test]
fn parse_names_non_object_errors() {
    assert!(parse_names(Some("[]")).is_err());
}

#[test]
fn av_to_json_m_map_nested() {
    let inner = vec![("k".into(), AttributeValue::S("v".into()))];
    let av = AttributeValue::M(inner);
    assert_eq!(av_to_json(&av).get("k"), Some(&j("\"v\"")));
}

#[test]
fn json_to_av_string_array_becomes_list() {
    match json_to_av(&j(r#"["a", "b"]"#)) {
        AttributeValue::L(v) => assert_eq!(v.len(), 2),
        other => panic!("expected L, got {other:?}"),
    }
}

#[test]
fn av_to_json_l_empty_list() {
    assert_eq!(av_to_json(&AttributeValue::L(vec![])), j("[]"));
}

#[test]
fn json_to_av_large_integer_string() {
    match json_to_av(&Json::count(9_223_372_036_854_775_807u64)) {
        AttributeValue::N(s) => assert_eq!(s, "9223372036854775807"),
        other => panic!("expected N, got {other:?}"),
    }
}

#[test]
fn parse_names_scalar_rejected() {
    assert!(parse_names(Some("\"x\"")).is_err());
}

#[test]
fn av_to_json_bs_binary_set() {
    let av = AttributeValue::Bs(vec![b"a".to_vec(), b"b".to_vec()]);
    match av_to_json(&av) {
        Json::Array(arr) => assert_eq!(arr.len(), 2),
        other => panic!("expected an array, got {other:?}"),
    }
}

#[test]
fn json_to_av_nested_map_in_map() {
    let m = json_obj_to_av_map(r#"{"outer":{"inner":"v"}}"#).unwrap();
    assert!(matches!(at(&m, "outer"), Some(AttributeValue::M(_))));
}

#[test]
fn parse_vals_string_scalar_rejected() {
    assert!(parse_vals(Some("\"x\"")).is_err());
}

#[test]
fn parse_vals_array_rejected() {
    assert!(parse_vals(Some("[]")).is_err());
}
