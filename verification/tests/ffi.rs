use stryke_aws::ffi::pkg_version;
use stryke_aws::ffi::read_options;
use stryke_aws::ffi::region_for;
use stryke_aws::ffi::connection_for;
use stryke_aws::ffi::subscribe_connection_for;
use stryke_aws::ffi::reply_text;
use stryke_aws::ffi::Outcome;
use stryke_aws::json::Json;
use stryke_aws::wire::parse_json;

#[test]
fn ffi_null_args_returns_well_formed_json_not_segfault() {
    let opts = read_options(None);
    assert!(opts.is_null());
    let s = reply_text(Outcome::Answered(pkg_version("0.2.0")));
    let v = parse_json(&s).expect("output must be valid JSON");
    assert_eq!(v.get("version"), Some(&Json::text("0.2.0")), "got {s}");
    assert!(v.get("error").is_none(), "null args must not produce error");
}

#[test]
fn ffi_invalid_json_args_does_not_crash_or_propagate_to_handler() {
    let opts = read_options(Some(b"this is not json {[ "));
    assert!(opts.is_null(), "garbage args must be coerced to null");
    let s = reply_text(Outcome::Answered(pkg_version("0.2.0")));
    let v = parse_json(&s).expect("output must be valid JSON");
    assert_eq!(v.get("version"), Some(&Json::text("0.2.0")));
    assert!(v.get("error").is_none());
}

#[test]
fn ffi_handler_panic_is_caught_and_returned_as_error_json() {
    let s = reply_text(Outcome::Panicked);
    let v = parse_json(&s).expect("output must be valid JSON");
    assert_eq!(v.get("error"), Some(&Json::text("stryke-aws handler panicked")), "got {s}");
}

#[test]
fn ffi_handler_err_maps_to_error_key_with_verbatim_message() {
    let s = reply_text(Outcome::Failed("missing bucket".to_string()));
    let v = parse_json(&s).expect("output must be valid JSON");
    assert_eq!(v.get("error"), Some(&Json::text("missing bucket")), "got {s}");
    assert!(v.get("error").unwrap().as_str().is_some(), "error must be a flat string: {s}");
    assert_eq!(s, "{\"error\":\"missing bucket\"}");
}

#[test]
fn ffi_args_are_parsed_and_threaded_to_handler_intact() {
    let doc = r#"{"region":"eu-wést-1","nested":{"n":42}}"#;
    let opts = read_options(Some(doc.as_bytes()));
    let s = reply_text(Outcome::Answered(opts));
    let v = parse_json(&s).expect("output must be valid JSON");
    assert_eq!(v.get("region"), Some(&Json::text("eu-wést-1")), "got {s}");
    assert_eq!(v.get("nested").unwrap().get("n"), Some(&Json::whole(42)), "got {s}");
    assert!(v.get("error").is_none(), "valid JSON args must parse cleanly: {s}");
}

#[test]
fn ffi_malformed_nonnull_args_reach_handler_as_null() {
    let received = read_options(Some(b"{not valid json"));
    let was_null = received.is_null();
    let s = reply_text(Outcome::Answered(Json::Object(vec![
        ("was_null".to_string(), Json::Bool(was_null)),
        ("received".to_string(), received),
    ])));
    let v = parse_json(&s).expect("output must be valid JSON");
    assert_eq!(v.get("was_null"), Some(&Json::Bool(true)), "got {s}");
    assert_eq!(v.get("received"), Some(&Json::Null), "got {s}");
}

#[test]
fn the_region_comes_from_the_first_place_that_names_one() {
    let opts = Json::Object(vec![("region".to_string(), Json::text("eu-west-1"))]);
    let some = |r: &str| Some(r.to_string());
    assert_eq!(region_for(&opts, some("a"), some("b")), "eu-west-1");
    assert_eq!(region_for(&Json::Null, some("a"), some("b")), "a");
    assert_eq!(region_for(&Json::Null, None, some("b")), "b");
    assert_eq!(region_for(&Json::Null, None, None), "us-east-1");
}

#[test]
fn a_call_can_name_its_region_profile_and_endpoint() {
    let some = |r: &str| Some(r.to_string());
    let opts = parse_json(
        r#"{"region":"us-east-1","profile":"prod","endpoint":"http://localhost:4566"}"#,
    )
    .unwrap();
    let there = connection_for(&opts, some("a"), None, some("http://other"));
    assert_eq!(there.region, "us-east-1");
    assert_eq!(there.profile.as_deref(), Some("prod"));
    assert_eq!(there.endpoint.as_deref(), Some("http://localhost:4566"));
    let usual = connection_for(&Json::Null, some("a"), None, some("http://other"));
    assert_eq!(usual.region, "a");
    assert_eq!((usual.profile, usual.endpoint.as_deref()), (None, Some("http://other")));
    assert_eq!(connection_for(&Json::Null, None, None, None).endpoint, None);
    // The endpoint of a subscription is not that of the service.
    let sub = subscribe_connection_for(&opts, None, None, None);
    assert_eq!((sub.region.as_str(), sub.profile.as_deref()), ("us-east-1", Some("prod")));
    assert_eq!(sub.endpoint, None);
}

#[test]
fn fields_are_written_in_the_order_of_their_names_and_the_later_counts() {
    let json = Json::Object(vec![
        ("b".to_string(), Json::whole(1)),
        ("a".to_string(), Json::Array(vec![Json::Null, Json::Bool(false)])),
        ("b".to_string(), Json::text("x\"y")),
    ]);
    assert_eq!(
        reply_text(Outcome::Answered(json)),
        "{\"a\":[null,false],\"b\":\"x\\\"y\"}"
    );
}
