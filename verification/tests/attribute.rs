use stryke_aws::attribute::attribute_value_to_json;
use stryke_aws::attribute::ddb_item_to_json;
use stryke_aws::attribute::json_obj_to_av_map;
use stryke_aws::attribute::json_to_attribute_value;
use stryke_aws::attribute::json_to_av;
use stryke_aws::attribute::AttributeValue;
use stryke_aws::ddb;
use stryke_aws::json::Json;
use stryke_aws::options::string_vec;
use stryke_aws::wire::parse_json;

fn j(text: &str) -> Json {
    parse_json(text).unwrap()
}

/// Each scalar has an attribute type of its own. A number that became a string would break range
/// queries on the attribute.
#[test]
fn json_to_av_maps_scalars_to_matching_attribute_types() {
    assert_eq!(json_to_av(&j("\"x\"")), AttributeValue::S("x".into()));
    assert_eq!(json_to_av(&j("42")), AttributeValue::N("42".into()));
    assert_eq!(json_to_av(&j("1.25")), AttributeValue::N("1.25".into()));
    assert_eq!(json_to_av(&j("true")), AttributeValue::Bool(true));
    assert_eq!(json_to_av(&Json::Null), AttributeValue::Null(true));
}

/// A large whole number keeps its digits.
#[test]
fn json_to_av_large_integer_preserves_exact_digits() {
    let big = Json::whole(9_007_199_254_740_993_i64); // 2^53 + 1
    assert_eq!(json_to_av(&big), AttributeValue::N("9007199254740993".into()));
}

#[test]
fn string_vec_accepts_array_single_and_null() {
    assert_eq!(string_vec(&j(r#"["a", "b"]"#)).unwrap(), vec!["a", "b"]);
    assert_eq!(string_vec(&j("\"solo\"")).unwrap(), vec!["solo"]);
    assert!(string_vec(&Json::Null).unwrap().is_empty());
    assert!(string_vec(&j(r#"["a", 1]"#)).is_err(), "non-string element must error");
}

#[test]
fn av_string_roundtrips_as_json_string() {
    let av = AttributeValue::S("hello".into());
    assert_eq!(attribute_value_to_json(&av), j("\"hello\""));
}

#[test]
fn av_number_int_decodes_to_i64() {
    let av = AttributeValue::N("42".into());
    assert_eq!(attribute_value_to_json(&av), Json::whole(42_i64));
}

#[test]
fn av_number_float_decodes_to_f64() {
    let av = AttributeValue::N("1.25".into());
    assert_eq!(
        attribute_value_to_json(&av),
        Json::Number(serde_json::Number::from_f64(1.25_f64).unwrap())
    );
}

#[test]
fn av_number_non_numeric_falls_back_to_string() {
    // A text that is no number is shown as it stands.
    let av = AttributeValue::N("not-a-number".into());
    assert_eq!(attribute_value_to_json(&av), j("\"not-a-number\""));
}

#[test]
fn av_bool_and_null() {
    assert_eq!(attribute_value_to_json(&AttributeValue::Bool(true)), j("true"));
    assert_eq!(attribute_value_to_json(&AttributeValue::Bool(false)), j("false"));
    assert_eq!(attribute_value_to_json(&AttributeValue::Null(true)), Json::Null);
}

#[test]
fn av_string_set_renders_as_json_array() {
    let av = AttributeValue::Ss(vec!["a".into(), "b".into()]);
    assert_eq!(attribute_value_to_json(&av), j(r#"["a", "b"]"#));
}

/// The numbers in a set are shown as they were stored, since some callers rely on how they were
/// written.
#[test]
fn av_number_set_renders_as_json_array_of_strings() {
    let av = AttributeValue::Ns(vec!["1".into(), "2.5".into(), "3e10".into()]);
    assert_eq!(attribute_value_to_json(&av), j(r#"["1", "2.5", "3e10"]"#));
}

#[test]
fn av_list_recurses_per_element() {
    let av = AttributeValue::L(vec![
        AttributeValue::S("x".into()),
        AttributeValue::N("7".into()),
        AttributeValue::Bool(true),
    ]);
    assert_eq!(attribute_value_to_json(&av), j(r#"["x", 7, true]"#));
}

#[test]
fn av_map_preserves_keys_and_recurses_values() {
    let m = vec![
        ("name".to_string(), AttributeValue::S("ada".into())),
        ("age".to_string(), AttributeValue::N("36".into())),
    ];
    let av = AttributeValue::M(m);
    let v = attribute_value_to_json(&av);
    assert_eq!(v.get("name"), Some(&j("\"ada\"")));
    assert_eq!(v.get("age"), Some(&Json::whole(36_i64)));
}

#[test]
fn av_nested_map_in_list_round_trips() {
    let inner = vec![("k".to_string(), AttributeValue::S("v".into()))];
    let av = AttributeValue::L(vec![AttributeValue::M(inner)]);
    match attribute_value_to_json(&av) {
        Json::Array(items) => assert_eq!(items[0].get("k"), Some(&j("\"v\""))),
        other => panic!("expected an array, got {other:?}"),
    }
}

// Whole numbers are read before floating-point ones, or those at the ends of the range would lose
// precision.
#[test]
fn av_number_i64_boundary_round_trips_exactly() {
    let max = AttributeValue::N(i64::MAX.to_string());
    let got_max = attribute_value_to_json(&max);
    assert_eq!(got_max, Json::whole(i64::MAX));
    assert_eq!(got_max.as_i64(), Some(i64::MAX));

    let min = AttributeValue::N(i64::MIN.to_string());
    let got_min = attribute_value_to_json(&min);
    assert_eq!(got_min, Json::whole(i64::MIN));
    assert_eq!(got_min.as_i64(), Some(i64::MIN));
}

#[test]
fn av_number_negative_integer_decodes_to_i64() {
    let av = AttributeValue::N("-12345".into());
    let v = attribute_value_to_json(&av);
    assert_eq!(v, Json::whole(-12345_i64));
    assert_eq!(v.as_i64(), Some(-12345));
}

#[test]
fn av_empty_list_and_map_render_as_empty_collections() {
    let empty_l = AttributeValue::L(vec![]);
    assert_eq!(attribute_value_to_json(&empty_l), j("[]"));
    assert!(matches!(attribute_value_to_json(&empty_l), Json::Array(_)));

    let empty_m = AttributeValue::M(vec![]);
    assert_eq!(attribute_value_to_json(&empty_m), j("{}"));
    assert!(matches!(attribute_value_to_json(&empty_m), Json::Object(_)));
}

// A number with an exponent is a floating-point number, even where its value is whole.
#[test]
fn av_number_scientific_notation_integer_stays_in_f64_lane() {
    let av = AttributeValue::N("1e10".into());
    let v = attribute_value_to_json(&av);
    assert_eq!(
        v,
        Json::Number(serde_json::Number::from_f64(10_000_000_000.0_f64).unwrap())
    );
    assert!(
        matches!(&v, Json::Number(n) if n.is_f64()),
        "1e10 must stay in f64 lane, got {v:?}"
    );
    assert_eq!(v.as_i64(), None, "1e10 must not be reachable via as_i64");
}

// A whole number beyond the range is shown as a floating-point number, not as a string.
#[test]
fn av_number_above_i64_max_degrades_to_f64_not_string() {
    let av = AttributeValue::N("9223372036854775808".into());
    let v = attribute_value_to_json(&av);
    match &v {
        Json::Number(n) => {
            assert!(n.is_f64(), "i64-overflow value must be f64, got {v:?}");
            assert_eq!(n.as_f64(), Some(9_223_372_036_854_775_808_f64));
        }
        _ => panic!("i64-overflow value must remain numeric, got {v:?}"),
    }
}

#[test]
fn av_number_empty_string_falls_back_to_empty_json_string() {
    let av = AttributeValue::N(String::new());
    let v = attribute_value_to_json(&av);
    assert_eq!(v, j("\"\""));
    assert!(v.as_str().is_some());
    assert!(!matches!(v, Json::Number(_)));
    assert!(!v.is_null());
}

#[test]
fn attribute_value_round_trips_nested() {
    let input = j(
        r#"{"id": "abc", "n": 42, "ok": true, "tags": ["x", "y"],
            "meta": { "k": "v", "nested": [1, 2] }}"#,
    );
    let av_map = match &input {
        Json::Object(obj) => json_obj_to_av_map(obj),
        other => panic!("expected an object, got {other:?}"),
    };
    let back = ddb_item_to_json(&av_map);
    assert_eq!(back.get("id"), Some(&j("\"abc\"")));
    assert_eq!(back.get("n"), Some(&j("42")));
    assert_eq!(back.get("ok"), Some(&j("true")));
    assert_eq!(back.get("tags"), Some(&j(r#"["x", "y"]"#)));
    assert_eq!(back.get("meta").unwrap().get("k"), Some(&j("\"v\"")));
    assert_eq!(back.get("meta").unwrap().get("nested"), Some(&j("[1, 2]")));
    assert_eq!(back, input);
}

#[test]
fn arrays_objects_and_binary_have_types_of_their_own() {
    assert_eq!(
        json_to_av(&j(r#"[1, "a"]"#)),
        AttributeValue::L(vec![AttributeValue::N("1".into()), AttributeValue::S("a".into())])
    );
    assert_eq!(
        json_to_av(&j(r#"{"b": 1}"#)),
        AttributeValue::M(vec![("b".into(), AttributeValue::N("1".into()))])
    );
    assert_eq!(json_to_av(&Json::text("base64:YQ==")), AttributeValue::B(b"a".to_vec()));
}

#[test]
fn binary_comes_back_marked_and_goes_in_again() {
    let av = AttributeValue::B(b"hello".to_vec());
    let shown = attribute_value_to_json(&av);
    assert_eq!(shown, Json::text("base64:aGVsbG8="));
    assert_eq!(json_to_attribute_value(&shown), av);
    let set = AttributeValue::Bs(vec![b"a".to_vec(), b"bc".to_vec()]);
    assert_eq!(attribute_value_to_json(&set), j(r#"["base64:YQ==", "base64:YmM="]"#));
    // Without padding, or with bits that do not count, it is a string.
    assert_eq!(
        json_to_attribute_value(&Json::text("base64:aGVsbG8")),
        AttributeValue::S("base64:aGVsbG8".into())
    );
    assert_eq!(
        json_to_attribute_value(&Json::text("base64:aGVsbG9=")),
        AttributeValue::S("base64:aGVsbG9=".into())
    );
}

#[test]
fn what_is_not_known_is_named_or_dropped() {
    assert_eq!(attribute_value_to_json(&AttributeValue::Unknown), Json::text("Unknown"));
    assert_eq!(ddb::av_to_json(&AttributeValue::Unknown), Json::Null);
}

#[test]
fn numbers_that_are_not_finite_stay_as_they_were_stored() {
    assert_eq!(attribute_value_to_json(&AttributeValue::N("inf".into())), Json::text("inf"));
    assert_eq!(attribute_value_to_json(&AttributeValue::N("NaN".into())), Json::text("NaN"));
    assert_eq!(ddb::av_to_json(&AttributeValue::N("1e400".into())), Json::text("1e400"));
    assert_eq!(
        ddb::av_to_json(&AttributeValue::Ns(vec!["-1e999".into(), "2".into()])),
        j(r#"["-1e999", 2]"#)
    );
    assert_eq!(attribute_value_to_json(&AttributeValue::N("+7".into())), Json::whole(7));
    assert_eq!(attribute_value_to_json(&AttributeValue::N("-0".into())), Json::whole(0));
}

#[test]
fn every_number_that_fits_comes_back() {
    for text in ["0", "-1", "9223372036854775807", "-9223372036854775808", "0.1", "1e300", "-2.5e-7", "1.0"] {
        let v = j(text);
        assert_eq!(attribute_value_to_json(&json_to_attribute_value(&v)), v, "{text}");
    }
    // A whole number beyond the range does not.
    let big = j("18446744073709551615");
    assert_ne!(attribute_value_to_json(&json_to_attribute_value(&big)), big);
}

#[test]
fn of_two_attributes_of_one_name_the_later_counts() {
    let item = vec![
        ("a".to_string(), AttributeValue::N("1".into())),
        ("a".to_string(), AttributeValue::N("2".into())),
    ];
    assert_eq!(ddb_item_to_json(&item).get("a"), Some(&j("2")));
}

#[test]
fn string_vec_refuses_other_values() {
    assert_eq!(string_vec(&j("3")).unwrap_err(), "expected string or array of strings");
    assert_eq!(string_vec(&j("[null]")).unwrap_err(), "non-string in array");
}

#[test]
fn values_go_there_and_back() {
    for text in [
        "\"x\"",
        "\"base64:aGk=\"",
        "42",
        "-7",
        "1.25",
        "true",
        "null",
        "[1, [true, null]]",
        "{\"a\": {\"b\": [\"c\"]}}",
    ] {
        let json = j(text);
        assert_eq!(attribute_value_to_json(&json_to_av(&json)), json, "{text}");
    }
    let stored = AttributeValue::N("0.5".to_string());
    assert_eq!(json_to_av(&attribute_value_to_json(&stored)), stored);
}
