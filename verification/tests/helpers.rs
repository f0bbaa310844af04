use stryke_aws::arn::op_arn_matches;
use stryke_aws::arn::op_build_arn;
use stryke_aws::arn::op_parse_arn;
use stryke_aws::arn::op_valid_arn;
use stryke_aws::endpoint::op_parse_service_endpoint;
use stryke_aws::endpoint::op_service_endpoint;
use stryke_aws::json::Json;
use stryke_aws::region::op_dns_suffix_for_partition;
use stryke_aws::region::op_partition_for_region;
use stryke_aws::region::op_region_for_az;
use stryke_aws::region::op_valid_region;
use stryke_aws::s3url::op_parse_s3_url;
use stryke_aws::s3url::op_s3_object_url;
use stryke_aws::uri::op_arn_to_s3_uri;
use stryke_aws::uri::op_build_s3_uri;
use stryke_aws::uri::op_parse_s3_uri;
use stryke_aws::uri::op_s3_uri_to_arn;
use stryke_aws::validate::op_valid_account_id;
use stryke_aws::validate::op_valid_bucket_name;
use stryke_aws::validate::op_valid_s3_key;
use stryke_aws::validate::op_valid_sqs_queue_name;

fn opts(fields: &[(&str, &str)]) -> Json {
    Json::Object(
        fields
            .iter()
            .map(|(name, text)| (name.to_string(), Json::text(text)))
            .collect(),
    )
}

fn t<'a>(json: &'a Json, name: &str) -> Option<&'a str> {
    json.get(name).unwrap().as_str()
}

fn null(json: &Json, name: &str) -> bool {
    json.get(name).unwrap().is_null()
}

fn yes(json: &Json, name: &str) -> bool {
    json.get(name).unwrap().as_bool().unwrap()
}

#[test]
fn parse_arn_slash_resource_form() {
    let v = op_parse_arn(opts(&[("arn", "arn:aws:iam::123456789012:role/Admin")])).unwrap();
    assert_eq!(t(&v, "partition"), Some("aws"));
    assert_eq!(t(&v, "service"), Some("iam"));
    assert!(null(&v, "region"), "IAM is global → empty region");
    assert_eq!(t(&v, "account_id"), Some("123456789012"));
    assert_eq!(t(&v, "resource_type"), Some("role"));
    assert_eq!(t(&v, "resource_id"), Some("Admin"));
    assert_eq!(t(&v, "resource"), Some("role/Admin"));
}

#[test]
fn parse_arn_colon_and_bare_resource_forms() {
    // A resource with a colon (Lambda, SNS).
    let lambda = op_parse_arn(opts(&[(
        "arn",
        "arn:aws:lambda:us-east-1:123456789012:function:my-fn",
    )]))
    .unwrap();
    assert_eq!(t(&lambda, "region"), Some("us-east-1"));
    assert_eq!(t(&lambda, "resource_type"), Some("function"));
    assert_eq!(t(&lambda, "resource_id"), Some("my-fn"));
    // A bare resource (an S3 bucket) has no type.
    let s3 = op_parse_arn(opts(&[("arn", "arn:aws:s3:::my-bucket")])).unwrap();
    assert!(null(&s3, "resource_type"));
    assert_eq!(t(&s3, "resource_id"), Some("my-bucket"));
    assert!(null(&s3, "account_id"), "S3 ARNs carry no account");
}

#[test]
fn parse_arn_rejects_non_arn() {
    assert!(op_parse_arn(opts(&[("arn", "not:an:arn")])).is_err());
    assert!(op_parse_arn(opts(&[])).is_err());
}

#[test]
fn parse_arn_cuts_the_resource_at_whichever_mark_comes_first() {
    let log = op_parse_arn(opts(&[(
        "arn",
        "arn:aws:logs:us-east-1:123456789012:log-group:/aws/lambda/fn",
    )]))
    .unwrap();
    assert_eq!(t(&log, "resource_type"), Some("log-group"));
    assert_eq!(t(&log, "resource_id"), Some("/aws/lambda/fn"));
    let role = op_parse_arn(opts(&[("arn", "arn:aws:x:::a/b:c")])).unwrap();
    assert_eq!(t(&role, "resource_type"), Some("a"));
    assert_eq!(t(&role, "resource_id"), Some("b:c"));
}

#[test]
fn parse_arn_messages() {
    assert_eq!(
        op_parse_arn(opts(&[("arn", "arn:aws:s3")])).unwrap_err(),
        "not an ARN (want arn:partition:service:region:account:resource): arn:aws:s3"
    );
    assert_eq!(op_parse_arn(Json::Null).unwrap_err(), "missing arn");
    assert_eq!(op_build_arn(opts(&[("resource", "r")])).unwrap_err(), "missing service");
    assert_eq!(op_build_arn(opts(&[("service", "s")])).unwrap_err(), "missing resource");
}

#[test]
fn build_arn_round_trips_through_parse() {
    let built = op_build_arn(opts(&[
        ("service", "iam"),
        ("account_id", "123456789012"),
        ("resource", "role/Admin"),
    ]))
    .unwrap();
    let arn = t(&built, "arn").unwrap();
    // The partition is aws unless it is given, and an empty region leaves two colons in a row.
    assert_eq!(arn, "arn:aws:iam::123456789012:role/Admin");
    let parsed = op_parse_arn(opts(&[("arn", arn)])).unwrap();
    assert_eq!(t(&parsed, "service"), Some("iam"));
    assert_eq!(t(&parsed, "resource_id"), Some("Admin"));
    let again = op_build_arn(parsed).unwrap();
    assert_eq!(t(&again, "arn"), Some("arn:aws:iam::123456789012:role/Admin"));
}

#[test]
fn parse_s3_uri_splits_bucket_and_key() {
    let v = op_parse_s3_uri(opts(&[("uri", "s3://my-bucket/path/to/object.txt")])).unwrap();
    assert_eq!(t(&v, "bucket"), Some("my-bucket"));
    assert_eq!(t(&v, "key"), Some("path/to/object.txt"));
    let bucket_only = op_parse_s3_uri(opts(&[("uri", "s3://my-bucket")])).unwrap();
    assert!(null(&bucket_only, "key"));
    assert!(op_parse_s3_uri(opts(&[("uri", "http://x/y")])).is_err());
}

#[test]
fn parse_s3_uri_messages() {
    assert_eq!(op_parse_s3_uri(opts(&[])).unwrap_err(), "missing uri");
    assert_eq!(
        op_parse_s3_uri(opts(&[("uri", "http://x/y")])).unwrap_err(),
        "not an s3:// URI: http://x/y"
    );
    assert_eq!(
        op_parse_s3_uri(opts(&[("uri", "s3:///key")])).unwrap_err(),
        "s3 URI missing bucket: s3:///key"
    );
    assert_eq!(op_build_s3_uri(opts(&[])).unwrap_err(), "missing bucket");
    assert_eq!(op_build_s3_uri(opts(&[("bucket", "")])).unwrap_err(), "bucket must not be empty");
}

#[test]
fn build_s3_uri_round_trips_through_parse() {
    let built =
        op_build_s3_uri(opts(&[("bucket", "my-bucket"), ("key", "path/to/object.txt")])).unwrap();
    assert_eq!(t(&built, "uri"), Some("s3://my-bucket/path/to/object.txt"));
    let back = op_parse_s3_uri(built).unwrap();
    assert_eq!(t(&back, "bucket"), Some("my-bucket"));
    assert_eq!(t(&back, "key"), Some("path/to/object.txt"));
    // The bucket alone where the key is missing or empty; slashes before the key go.
    assert_eq!(t(&op_build_s3_uri(opts(&[("bucket", "b")])).unwrap(), "uri"), Some("s3://b"));
    assert_eq!(
        t(&op_build_s3_uri(opts(&[("bucket", "b"), ("key", "")])).unwrap(), "uri"),
        Some("s3://b")
    );
    assert_eq!(
        t(&op_build_s3_uri(opts(&[("bucket", "b"), ("key", "/leading")])).unwrap(), "uri"),
        Some("s3://b/leading")
    );
    assert!(op_build_s3_uri(opts(&[("bucket", "")])).is_err());
}

#[test]
fn s3_uri_to_arn_maps_uri_to_object_and_bucket_arns() {
    let obj = op_s3_uri_to_arn(opts(&[("uri", "s3://my-bucket/path/to/object.txt")])).unwrap();
    assert_eq!(t(&obj, "arn"), Some("arn:aws:s3:::my-bucket/path/to/object.txt"));
    assert_eq!(t(&obj, "bucket"), Some("my-bucket"));
    assert_eq!(t(&obj, "key"), Some("path/to/object.txt"));
    let buck = op_s3_uri_to_arn(opts(&[("uri", "s3://my-bucket")])).unwrap();
    assert_eq!(t(&buck, "arn"), Some("arn:aws:s3:::my-bucket"));
    assert!(null(&buck, "key"));
    // A slash without a key behind it still names the bucket.
    assert_eq!(
        t(&op_s3_uri_to_arn(opts(&[("uri", "s3://b/")])).unwrap(), "arn"),
        Some("arn:aws:s3:::b")
    );
    assert_eq!(
        t(
            &op_s3_uri_to_arn(opts(&[("uri", "s3://b/k"), ("partition", "aws-cn")])).unwrap(),
            "arn"
        ),
        Some("arn:aws-cn:s3:::b/k")
    );
    assert!(op_s3_uri_to_arn(opts(&[("uri", "http://x/y")])).is_err());
    assert_eq!(
        t(&op_s3_uri_to_arn(opts(&[("uri", "s3://b"), ("partition", "")])).unwrap(), "arn"),
        Some("arn:aws:s3:::b")
    );
}

#[test]
fn arn_to_s3_uri_inverts_s3_uri_to_arn() {
    let obj =
        op_arn_to_s3_uri(opts(&[("arn", "arn:aws:s3:::my-bucket/path/to/object.txt")])).unwrap();
    assert_eq!(t(&obj, "uri"), Some("s3://my-bucket/path/to/object.txt"));
    assert_eq!(t(&obj, "bucket"), Some("my-bucket"));
    assert_eq!(t(&obj, "key"), Some("path/to/object.txt"));
    let buck = op_arn_to_s3_uri(opts(&[("arn", "arn:aws:s3:::my-bucket")])).unwrap();
    assert_eq!(t(&buck, "uri"), Some("s3://my-bucket"));
    assert!(null(&buck, "key"));
    for uri in ["s3://b/k", "s3://b", "s3://my-bucket/a/b/c.txt"] {
        let there = op_s3_uri_to_arn(opts(&[("uri", uri), ("partition", "aws-cn")])).unwrap();
        let arn = t(&there, "arn").unwrap();
        let back = op_arn_to_s3_uri(opts(&[("arn", arn)])).unwrap();
        assert_eq!(t(&back, "uri"), Some(uri));
    }
    // Another service, a region and an account, and junk are all refused.
    assert!(op_arn_to_s3_uri(opts(&[("arn", "arn:aws:ec2:us-east-1:123:instance/i-1")])).is_err());
    assert!(op_arn_to_s3_uri(opts(&[("arn", "arn:aws:s3:us-east-1:123:bucket/k")])).is_err());
    assert!(op_arn_to_s3_uri(opts(&[("arn", "s3://not-an-arn")])).is_err());
}

#[test]
fn arn_to_s3_uri_messages() {
    assert_eq!(op_arn_to_s3_uri(opts(&[])).unwrap_err(), "missing arn");
    assert_eq!(op_arn_to_s3_uri(opts(&[("arn", "x")])).unwrap_err(), "not an s3 ARN: x");
    assert_eq!(
        op_arn_to_s3_uri(opts(&[("arn", "arn:aws:s3:r::b")])).unwrap_err(),
        "s3 ARN must have empty region and account: arn:aws:s3:r::b"
    );
    assert_eq!(
        op_arn_to_s3_uri(opts(&[("arn", "arn:aws:s3:::/k")])).unwrap_err(),
        "s3 ARN missing bucket: arn:aws:s3:::/k"
    );
}

#[test]
fn valid_bucket_name_enforces_s3_rules() {
    assert!(yes(&op_valid_bucket_name(opts(&[("name", "my-logs.2025")])).unwrap(), "valid"));
    for (name, want) in [
        ("ab", "3-63"),
        ("MyBucket", "lowercase"),
        ("-bad", "start and end"),
        ("a..b", "adjacent periods"),
        ("192.168.0.1", "IP address"),
    ] {
        let v = op_valid_bucket_name(opts(&[("name", name)])).unwrap();
        assert!(!yes(&v, "valid"), "{name} should be invalid");
        let reason = t(&v, "reason").unwrap();
        assert!(reason.contains(want), "{name}: reason `{reason}` should mention `{want}`");
    }
}

#[test]
fn valid_bucket_name_edges() {
    let long = "a".repeat(63);
    let longer = "a".repeat(64);
    for (name, want) in [
        (long.as_str(), None),
        (longer.as_str(), Some("must be 3-63 characters")),
        ("abc", None),
        ("256.1.1.1", None),
        ("01.2.3.4", None),
        ("1.2.3", None),
        ("255.0.0.0", Some("must not be formatted as an IP address")),
        ("xn--abc", Some("must not start with `xn--`")),
        ("abc-s3alias", Some("must not end with `-s3alias`")),
        ("ab-", Some("must start and end with a letter or number")),
        ("éé", Some("only lowercase letters, numbers, dots, and hyphens")),
    ] {
        let v = op_valid_bucket_name(opts(&[("name", name)])).unwrap();
        assert_eq!(t(&v, "reason"), want, "{name}");
        assert_eq!(yes(&v, "valid"), want.is_none(), "{name}");
        assert_eq!(t(&v, "name"), Some(name));
    }
    assert_eq!(op_valid_bucket_name(opts(&[])).unwrap_err(), "missing name");
}

#[test]
fn valid_s3_key_enforces_byte_length_and_non_empty() {
    let v = op_valid_s3_key(opts(&[("key", "logs/2025/06/events.json")])).unwrap();
    assert!(yes(&v, "valid"));
    assert_eq!(v.get("bytes"), Some(&Json::whole(24)));
    // Bytes are counted, not characters.
    let u = op_valid_s3_key(opts(&[("key", "café")])).unwrap();
    assert_eq!(u.get("bytes"), Some(&Json::whole(5)));
    assert!(yes(&u, "valid"));
    let e = op_valid_s3_key(opts(&[("key", "")])).unwrap();
    assert!(!yes(&e, "valid"));
    assert!(t(&e, "reason").unwrap().contains("empty"));
    let k1024 = "a".repeat(1024);
    assert!(yes(&op_valid_s3_key(opts(&[("key", &k1024)])).unwrap(), "valid"));
    let k1025 = "a".repeat(1025);
    let over = op_valid_s3_key(opts(&[("key", &k1025)])).unwrap();
    assert!(!yes(&over, "valid"));
    assert!(t(&over, "reason").unwrap().contains("1024 bytes"));
    // `name` in place of `key`; without either it is an error.
    assert!(yes(&op_valid_s3_key(opts(&[("name", "k")])).unwrap(), "valid"));
    assert!(op_valid_s3_key(opts(&[])).is_err());
}

#[test]
fn valid_sqs_queue_name_enforces_create_queue_rules() {
    let chk = |n: &str| op_valid_sqs_queue_name(opts(&[("name", n)])).unwrap();
    let ok = chk("my-Queue_1");
    assert!(yes(&ok, "valid"));
    assert!(!yes(&ok, "fifo"));
    let fifo = chk("orders.fifo");
    assert!(yes(&fifo, "valid"));
    assert!(yes(&fifo, "fifo"));
    assert!(yes(&chk(&"a".repeat(80)), "valid"));
    assert!(!yes(&chk(&"a".repeat(81)), "valid"));
    assert!(yes(&chk(&("a".repeat(75) + ".fifo")), "valid"), "75 + .fifo = 80, the limit");
    assert!(!yes(&chk(&("a".repeat(76) + ".fifo")), "valid"), "76 + .fifo = 81 > 80");
    // A dot stands only in the suffix.
    assert!(!yes(&chk("my.queue"), "valid"));
    for bad in ["", "has space", "slash/no", "dollar$"] {
        assert!(!yes(&chk(bad), "valid"), "`{bad}` should be invalid");
    }
    // A bare suffix has no base name.
    assert!(!yes(&chk(".fifo"), "valid"));
    assert!(op_valid_sqs_queue_name(opts(&[])).is_err());
}

#[test]
fn valid_sqs_queue_name_reasons() {
    let why = |n: &str| {
        let v = op_valid_sqs_queue_name(opts(&[("name", n)])).unwrap();
        t(&v, "reason").map(String::from)
    };
    assert_eq!(why("").unwrap(), "must not be empty");
    assert_eq!(
        why(&"a".repeat(81)).unwrap(),
        "must be at most 80 characters (including any .fifo suffix)"
    );
    assert_eq!(
        why(".fifo").unwrap(),
        "FIFO queue name needs a base name before the .fifo suffix"
    );
    assert_eq!(
        why("a.b.fifo").unwrap(),
        "only alphanumeric characters, hyphens, and underscores before the .fifo suffix"
    );
    assert_eq!(
        why("a.b").unwrap(),
        "only alphanumeric characters, hyphens, and underscores (a `.` is allowed only in a .fifo suffix)"
    );
    assert_eq!(why("ok"), None);
}

#[test]
fn valid_account_id_requires_exactly_twelve_digits() {
    let of = |id: &str| op_valid_account_id(opts(&[("account_id", id)])).unwrap();
    assert!(yes(&of("123456789012"), "valid"));
    assert!(yes(&of("012345678901"), "valid"), "leading zeros are allowed");
    for (id, want) in [
        ("12345678901", "12 digits"),
        ("1234567890123", "12 digits"),
        ("12345678901a", "only digits"),
        ("", "12 digits"),
    ] {
        let v = of(id);
        assert!(!yes(&v, "valid"), "{id:?} should be invalid");
        let reason = t(&v, "reason").unwrap();
        assert!(reason.contains(want), "{id:?}: reason `{reason}` should mention `{want}`");
    }
    assert!(yes(&op_valid_account_id(opts(&[("id", "123456789012")])).unwrap(), "valid"));
    assert!(yes(&op_valid_account_id(opts(&[("value", "123456789012")])).unwrap(), "valid"));
    assert!(op_valid_account_id(opts(&[])).is_err());
    // The first of the names that is there counts, whatever stands under it.
    let both = Json::Object(vec![
        ("account_id".to_string(), Json::Null),
        ("id".to_string(), Json::text("123456789012")),
    ]);
    assert_eq!(op_valid_account_id(both).unwrap_err(), "missing account_id");
}

#[test]
fn valid_arn_checks_the_six_field_structure() {
    let ok = |arn: &str| yes(&op_valid_arn(opts(&[("arn", arn)])).unwrap(), "valid");
    assert!(ok("arn:aws:iam::123456789012:user/bob"));
    assert!(ok("arn:aws:s3:::my-bucket"));
    assert!(ok("arn:aws-cn:ec2:cn-north-1:123456789012:instance/i-0abc"));
    // The resource may hold colons.
    assert!(ok("arn:aws:lambda:us-east-1:123456789012:function:my-fn:1"));
    for (arn, want) in [
        ("aws:iam::123:user/x", "6 colon-delimited fields"),
        ("xyz:aws:s3:::b", "literal `arn`"),
        ("arn::s3:::b", "partition"),
        ("arn:aws::us-east-1:123:r", "service"),
        ("arn:aws:s3:::", "resource"),
    ] {
        let v = op_valid_arn(opts(&[("arn", arn)])).unwrap();
        assert!(!yes(&v, "valid"), "{arn:?} should be invalid");
        let reason = t(&v, "reason").unwrap();
        assert!(reason.contains(want), "{arn:?}: reason `{reason}` should mention `{want}`");
    }
    assert!(yes(&op_valid_arn(opts(&[("value", "arn:aws:s3:::b")])).unwrap(), "valid"));
    assert!(op_valid_arn(opts(&[])).is_err());
}

#[test]
fn arn_matches_does_iam_wildcard_resource_matching() {
    let m = |pattern: &str, arn: &str| {
        yes(&op_arn_matches(opts(&[("pattern", pattern), ("arn", arn)])).unwrap(), "matches")
    };
    assert!(m("arn:aws:s3:::bucket", "arn:aws:s3:::bucket"));
    // A star spans slashes and colons.
    assert!(m("arn:aws:s3:::bucket/*", "arn:aws:s3:::bucket/a/b/c.txt"));
    assert!(m("arn:aws:s3:*", "arn:aws:s3:::bucket"));
    assert!(m("arn:aws:s3:::my-bucket/foo/*/bar", "arn:aws:s3:::my-bucket/foo/1/2/bar"));
    // A question mark stands for one character.
    assert!(m(
        "arn:aws:ec2:us-east-?:*:instance/*",
        "arn:aws:ec2:us-east-1:123456789012:instance/i-0abc"
    ));
    assert!(!m("arn:aws:ec2:us-east-??:*", "arn:aws:ec2:us-east-1:1:r"));
    assert!(!m("arn:aws:s3:::bucket/*", "arn:aws:s3:::other/key"));
    assert!(!m("arn:aws:s3:::Bucket", "arn:aws:s3:::bucket"));
    assert!(!m("arn:aws:s3:::bucket/*.png", "arn:aws:s3:::bucket/a.txt"));
    assert!(yes(
        &op_arn_matches(opts(&[("pattern", "*"), ("value", "arn:aws:s3:::b")])).unwrap(),
        "matches"
    ));
    assert!(op_arn_matches(opts(&[("pattern", "*")])).is_err());
    assert!(op_arn_matches(opts(&[("arn", "x")])).is_err());
}

#[test]
fn arn_matches_takes_a_star_in_the_arn_for_what_it_is() {
    let m = |pattern: &str, arn: &str| {
        yes(&op_arn_matches(opts(&[("pattern", pattern), ("arn", arn)])).unwrap(), "matches")
    };
    // A star in the pattern stands for any run, even where the text has a star there.
    assert!(m("a*c", "a*bc"));
    assert!(m("*c", "**c"));
    assert!(m("", ""));
    assert!(m("**", ""));
    assert!(!m("", "a"));
    assert!(!m("?", ""));
    assert_eq!(op_arn_matches(opts(&[("arn", "x")])).unwrap_err(), "missing pattern");
    assert_eq!(op_arn_matches(opts(&[("pattern", "x")])).unwrap_err(), "missing arn");
}

#[test]
fn partition_for_region_resolves_all_five_partitions() {
    for (region, partition) in [
        ("us-east-1", "aws"),
        ("eu-west-3", "aws"),
        ("ap-southeast-2", "aws"),
        ("cn-north-1", "aws-cn"),
        ("cn-northwest-1", "aws-cn"),
        ("us-gov-west-1", "aws-us-gov"),
        ("us-gov-east-1", "aws-us-gov"),
        ("us-iso-east-1", "aws-iso"),
        ("us-isob-east-1", "aws-iso-b"),
    ] {
        let v = op_partition_for_region(opts(&[("region", region)])).unwrap();
        assert_eq!(t(&v, "partition"), Some(partition), "{region} → {partition}");
    }
    let v = op_partition_for_region(opts(&[("region", "us-isob-east-1")])).unwrap();
    assert_ne!(t(&v, "partition"), Some("aws-iso"));
    assert!(op_partition_for_region(opts(&[])).is_err());
}

#[test]
fn valid_region_enforces_botocore_region_regex() {
    let ok = |r: &str| yes(&op_valid_region(opts(&[("region", r)])).unwrap(), "valid");
    for r in [
        "us-east-1",
        "eu-west-3",
        "ap-southeast-2",
        "mx-central-1",
        "il-central-1",
        "cn-north-1",
        "us-gov-west-1",
        "us-iso-east-1",
        "us-isob-east-1",
    ] {
        assert!(ok(r), "{r} should be valid");
    }
    let g = op_valid_region(opts(&[("region", "us-gov-east-1")])).unwrap();
    assert_eq!(t(&g, "partition"), Some("aws-us-gov"));
    assert!(yes(&g, "valid"));
    for bad in ["xx-east-1", "us-east", "us-east-one", "useast1", "us-gov-1", "cn-1", ""] {
        assert!(!ok(bad), "{bad} should be invalid");
    }
    let r = op_valid_region(opts(&[("region", "xx-east-1")])).unwrap();
    assert!(t(&r, "reason").is_some(), "invalid region carries a reason");
    assert!(op_valid_region(opts(&[])).is_err());
}

#[test]
fn valid_region_reasons() {
    for (region, want) in [
        ("xx-east-1", "unknown geography `xx` (us|eu|ap|sa|ca|me|af|il|mx)"),
        ("us-east", "must be <geo>-<area>-<number> (e.g. us-east-1)"),
        ("us--1", "must be <geo>-<area>-<number> (e.g. us-east-1)"),
        ("cn-north", "China region must be cn-<area>-<number>"),
        ("us-gov-1", "GovCloud region must be us-gov-<area>-<number>"),
        ("us-iso-east-x", "ISO region must be us-iso-<area>-<number>"),
        ("us-isob-", "ISO-B region must be us-isob-<area>-<number>"),
    ] {
        let v = op_valid_region(opts(&[("name", region)])).unwrap();
        assert_eq!(t(&v, "reason"), Some(want), "{region}");
        assert!(!yes(&v, "valid"));
    }
    let v = op_valid_region(opts(&[("region", "us-ea_st2-10")])).unwrap();
    assert!(yes(&v, "valid"));
    assert!(null(&v, "reason"));
}

#[test]
fn dns_suffix_for_partition_matches_botocore() {
    for (partition, suffix) in [
        ("aws", "amazonaws.com"),
        ("aws-cn", "amazonaws.com.cn"),
        ("aws-us-gov", "amazonaws.com"),
        ("aws-iso", "c2s.ic.gov"),
        ("aws-iso-b", "sc2s.sgov.gov"),
    ] {
        let v = op_dns_suffix_for_partition(opts(&[("partition", partition)])).unwrap();
        assert_eq!(t(&v, "dns_suffix"), Some(suffix), "{partition} → {suffix}");
    }
    let part = op_partition_for_region(opts(&[("region", "cn-north-1")])).unwrap();
    let v = op_dns_suffix_for_partition(part).unwrap();
    assert_eq!(t(&v, "dns_suffix"), Some("amazonaws.com.cn"));
    assert!(op_dns_suffix_for_partition(opts(&[("partition", "aws-mars")])).is_err());
    assert!(op_dns_suffix_for_partition(opts(&[])).is_err());
    assert_eq!(
        op_dns_suffix_for_partition(opts(&[("partition", "aws-mars")])).unwrap_err(),
        "unknown partition `aws-mars`"
    );
}

#[test]
fn service_endpoint_builds_regional_hostnames_across_partitions() {
    let of = |service: &str, region: &str| {
        op_service_endpoint(opts(&[("service", service), ("region", region)])).unwrap()
    };
    let v = of("s3", "us-east-1");
    assert_eq!(t(&v, "endpoint"), Some("s3.us-east-1.amazonaws.com"));
    assert_eq!(t(&v, "url"), Some("https://s3.us-east-1.amazonaws.com"));
    assert_eq!(t(&v, "partition"), Some("aws"));
    assert_eq!(t(&v, "dns_suffix"), Some("amazonaws.com"));
    assert_eq!(
        t(&of("dynamodb", "cn-north-1"), "endpoint"),
        Some("dynamodb.cn-north-1.amazonaws.com.cn")
    );
    assert_eq!(
        t(&of("ec2", "us-gov-west-1"), "endpoint"),
        Some("ec2.us-gov-west-1.amazonaws.com")
    );
    assert_eq!(t(&of("s3", "us-iso-east-1"), "endpoint"), Some("s3.us-iso-east-1.c2s.ic.gov"));
    assert!(op_service_endpoint(opts(&[("region", "us-east-1")])).is_err());
    assert!(op_service_endpoint(opts(&[("service", "s3")])).is_err());
    assert_eq!(
        op_service_endpoint(opts(&[("service", "s3"), ("region", "")])).unwrap_err(),
        "missing region"
    );
}

#[test]
fn parse_service_endpoint_inverts_service_endpoint() {
    let v = op_parse_service_endpoint(opts(&[("endpoint", "s3.us-east-1.amazonaws.com")])).unwrap();
    assert_eq!(t(&v, "service"), Some("s3"));
    assert_eq!(t(&v, "region"), Some("us-east-1"));
    assert_eq!(t(&v, "partition"), Some("aws"));
    assert_eq!(t(&v, "dns_suffix"), Some("amazonaws.com"));
    assert_eq!(t(&v, "url"), Some("https://s3.us-east-1.amazonaws.com"));
    let u = op_parse_service_endpoint(opts(&[(
        "url",
        "https://dynamodb.cn-north-1.amazonaws.com.cn/",
    )]))
    .unwrap();
    assert_eq!(t(&u, "partition"), Some("aws-cn"));
    for (service, region) in [
        ("s3", "us-east-1"),
        ("dynamodb", "cn-north-1"),
        ("ec2", "us-gov-west-1"),
        ("s3", "us-iso-east-1"),
        ("s3", "us-isob-east-1"),
    ] {
        let built = op_service_endpoint(opts(&[("service", service), ("region", region)])).unwrap();
        let p = op_parse_service_endpoint(opts(&[("endpoint", t(&built, "endpoint").unwrap())]))
            .unwrap();
        assert_eq!(t(&p, "service"), Some(service), "service round-trip {service}/{region}");
        assert_eq!(t(&p, "region"), Some(region), "region round-trip {service}/{region}");
    }
    assert!(op_parse_service_endpoint(opts(&[("endpoint", "s3")])).is_err());
    assert!(op_parse_service_endpoint(opts(&[("endpoint", "s3.us-east-1.example.com")])).is_err());
    assert!(op_parse_service_endpoint(opts(&[])).is_err());
}

#[test]
fn parse_service_endpoint_messages() {
    let why = |e: &str| op_parse_service_endpoint(opts(&[("endpoint", e)])).unwrap_err();
    assert_eq!(why("s3"), "not a service endpoint host `s3`");
    assert_eq!(why(".x"), "service endpoint has no service: `.x`");
    assert_eq!(why("http://s3.example.com/a"), "unrecognized service endpoint host `s3.example.com`");
    assert_eq!(
        why("s3.amazonaws.com?x=1"),
        "service endpoint has no region: `s3.amazonaws.com`"
    );
}

#[test]
fn region_for_az_strips_the_zone_letter() {
    let v = op_region_for_az(opts(&[("az", "us-east-1a")])).unwrap();
    assert_eq!(t(&v, "region"), Some("us-east-1"));
    assert_eq!(t(&v, "zone_letter"), Some("a"));
    assert_eq!(
        t(&op_region_for_az(opts(&[("az", "eu-west-2c")])).unwrap(), "region"),
        Some("eu-west-2")
    );
    assert_eq!(
        t(&op_region_for_az(opts(&[("az", "ap-southeast-1b")])).unwrap(), "region"),
        Some("ap-southeast-1")
    );
    assert!(op_region_for_az(opts(&[("az", "us-east-1")])).is_err());
    assert!(op_region_for_az(opts(&[("az", "us-east-1A")])).is_err());
    assert!(op_region_for_az(opts(&[])).is_err());
    assert_eq!(
        op_region_for_az(opts(&[("zone", "é1")])).unwrap_err(),
        "not a standard AZ (want <region><letter>, e.g. us-east-1a): é1"
    );
}

#[test]
fn s3_object_url_builds_virtual_hosted_style() {
    let v = op_s3_object_url(opts(&[
        ("bucket", "amzn-s3-demo-bucket1"),
        ("region", "us-west-2"),
        ("key", "puppy.png"),
    ]))
    .unwrap();
    assert_eq!(
        t(&v, "url"),
        Some("https://amzn-s3-demo-bucket1.s3.us-west-2.amazonaws.com/puppy.png")
    );
    assert_eq!(t(&v, "host"), Some("amzn-s3-demo-bucket1.s3.us-west-2.amazonaws.com"));
    assert_eq!(t(&v, "partition"), Some("aws"));
    let root = op_s3_object_url(opts(&[("bucket", "b"), ("region", "eu-west-1")])).unwrap();
    assert_eq!(t(&root, "url"), Some("https://b.s3.eu-west-1.amazonaws.com"));
    let slash =
        op_s3_object_url(opts(&[("bucket", "b"), ("region", "us-east-1"), ("key", "/a/b.txt")]))
            .unwrap();
    assert_eq!(t(&slash, "url"), Some("https://b.s3.us-east-1.amazonaws.com/a/b.txt"));
    let odd = op_s3_object_url(opts(&[
        ("bucket", "b"),
        ("region", "us-east-1"),
        ("key", "my dir/file (1).png"),
    ]))
    .unwrap();
    assert_eq!(
        t(&odd, "url"),
        Some("https://b.s3.us-east-1.amazonaws.com/my%20dir/file%20%281%29.png")
    );
    let cn = op_s3_object_url(opts(&[("bucket", "b"), ("region", "cn-north-1"), ("key", "k")]))
        .unwrap();
    assert_eq!(t(&cn, "url"), Some("https://b.s3.cn-north-1.amazonaws.com.cn/k"));
    assert!(op_s3_object_url(opts(&[("region", "us-east-1")])).is_err());
    assert!(op_s3_object_url(opts(&[("bucket", "b")])).is_err());
}

#[test]
fn parse_s3_url_inverts_s3_object_url() {
    let of = |url: &str| op_parse_s3_url(opts(&[("url", url)]));
    let v = of("https://amzn-s3-demo-bucket1.s3.us-west-2.amazonaws.com/puppy.png").unwrap();
    assert_eq!(t(&v, "style"), Some("virtual-hosted"));
    assert_eq!(t(&v, "bucket"), Some("amzn-s3-demo-bucket1"));
    assert_eq!(t(&v, "key"), Some("puppy.png"));
    assert_eq!(t(&v, "region"), Some("us-west-2"));
    assert_eq!(t(&v, "partition"), Some("aws"));
    assert_eq!(t(&v, "dns_suffix"), Some("amazonaws.com"));
    for (bucket, region, key) in [
        ("b", "us-east-1", Some("my dir/file (1).png")),
        ("amzn-s3-demo-bucket1", "us-west-2", Some("puppy.png")),
        ("b", "cn-north-1", Some("k")),
        ("b", "eu-west-1", None),
        ("my.bucket", "us-isob-east-1", Some("ключ/100%25 ☃")),
    ] {
        let mut fields = vec![("bucket", bucket), ("region", region)];
        if let Some(k) = key {
            fields.push(("key", k));
        }
        let built = op_s3_object_url(opts(&fields)).unwrap();
        let url = t(&built, "url").unwrap();
        let p = of(url).unwrap();
        assert_eq!(t(&p, "bucket"), Some(bucket), "bucket round-trip for {url}");
        assert_eq!(t(&p, "region"), Some(region), "region round-trip for {url}");
        match key {
            Some(k) => assert_eq!(t(&p, "key"), Some(k), "key round-trip for {url}"),
            None => assert!(null(&p, "key"), "no key for {url}"),
        }
    }
    let p = of("https://s3.eu-west-1.amazonaws.com/my-bucket/a/b.txt").unwrap();
    assert_eq!(t(&p, "style"), Some("path"));
    assert_eq!(t(&p, "bucket"), Some("my-bucket"));
    assert_eq!(t(&p, "key"), Some("a/b.txt"));
    assert_eq!(t(&p, "region"), Some("eu-west-1"));
    let cn = of("https://b.s3.cn-north-1.amazonaws.com.cn/k").unwrap();
    assert_eq!(t(&cn, "region"), Some("cn-north-1"));
    assert_eq!(t(&cn, "partition"), Some("aws-cn"));
    assert_eq!(t(&cn, "dns_suffix"), Some("amazonaws.com.cn"));
    // The old global endpoint has no region.
    let g = of("https://b.s3.amazonaws.com/k").unwrap();
    assert_eq!(t(&g, "region"), Some(""));
    assert_eq!(t(&g, "partition"), Some("aws"));
    assert!(null(&of("https://b.s3.eu-west-1.amazonaws.com").unwrap(), "key"));
    assert!(of("b.s3.us-east-1.amazonaws.com/k").is_err());
    assert!(of("https://b.s3.us-west-2.example.com/k").is_err());
    assert!(of("https://s3.us-east-1.amazonaws.com/").is_err());
    assert!(op_parse_s3_url(opts(&[])).is_err());
}

#[test]
fn parse_s3_url_messages() {
    let why = |url: &str| op_parse_s3_url(opts(&[("url", url)])).unwrap_err();
    assert_eq!(why("ftp://x"), "S3 URL must start with http(s)://: `ftp://x`");
    assert_eq!(why("https://example.com/x"), "not an S3 URL host `example.com`");
    assert_eq!(why("https://.s3.x/y"), "virtual-hosted S3 URL has no bucket: `https://.s3.x/y`");
    assert_eq!(why("https://b.s3.x/y"), "unrecognized S3 endpoint host `x`");
    assert_eq!(why("https://s3.x/y"), "unrecognized S3 endpoint host `x`");
    assert_eq!(
        why("http://s3.amazonaws.com"),
        "path-style S3 URL has no bucket: `http://s3.amazonaws.com`"
    );
    // A bucket called s3 is read as path style.
    let p = op_parse_s3_url(opts(&[("url", "https://s3.s3.us-east-1.amazonaws.com/k")])).unwrap();
    assert_eq!(t(&p, "style"), Some("path"));
    assert_eq!(t(&p, "bucket"), Some("k"));
}

#[test]
fn buckets_with_the_marker_in_them_come_back() {
    for bucket in ["a.s3.b", "a.s3", "s3.a", "s3.s3", "s3-a", "a.s3.s3.b"] {
        let built = op_s3_object_url(opts(&[
            ("bucket", bucket),
            ("region", "us-east-1"),
            ("key", "k"),
        ]))
        .unwrap();
        let back = op_parse_s3_url(opts(&[("url", t(&built, "url").unwrap())])).unwrap();
        assert_eq!(t(&back, "bucket"), Some(bucket));
        assert_eq!(t(&back, "region"), Some("us-east-1"));
        assert_eq!(t(&back, "key"), Some("k"));
        assert_eq!(t(&back, "style"), Some("virtual-hosted"));
    }
}

#[test]
fn urls_in_path_style_are_read_in_every_partition() {
    for (host, region, suffix) in [
        ("s3.us-east-1.amazonaws.com", "us-east-1", "amazonaws.com"),
        ("s3.cn-north-1.amazonaws.com.cn", "cn-north-1", "amazonaws.com.cn"),
        ("s3.amazonaws.com", "", "amazonaws.com"),
    ] {
        let url = format!("https://{host}/a.s3.b/my%20key/x");
        let v = op_parse_s3_url(opts(&[("url", &url)])).unwrap();
        assert_eq!(t(&v, "style"), Some("path"));
        assert_eq!(t(&v, "bucket"), Some("a.s3.b"));
        assert_eq!(t(&v, "key"), Some("my key/x"));
        assert_eq!(t(&v, "region"), Some(region));
        assert_eq!(t(&v, "dns_suffix"), Some(suffix));
    }
}

#[test]
fn endpoints_are_found_whatever_follows_them() {
    let built =
        op_service_endpoint(opts(&[("service", "sqs"), ("region", "cn-north-1")])).unwrap();
    let endpoint = t(&built, "endpoint").unwrap();
    for tail in ["", "/", "/a/b?c=1", "?x=/y"] {
        for head in ["", "https://", "http://"] {
            let raw = format!("{head}{endpoint}{tail}");
            let back = op_parse_service_endpoint(opts(&[("url", &raw)])).unwrap();
            for name in ["service", "region", "partition", "dns_suffix", "endpoint", "url"] {
                assert_eq!(t(&back, name), t(&built, name), "{raw}");
            }
        }
    }
}

#[test]
fn what_is_read_off_a_url_makes_it_up_again() {
    // The marker in the region is taken for the one behind the bucket.
    let built = op_s3_object_url(opts(&[
        ("bucket", "a"),
        ("region", "b.s3.us-east-1"),
        ("key", "my key"),
    ]))
    .unwrap();
    let url = t(&built, "url").unwrap();
    let back = op_parse_s3_url(opts(&[("url", url)])).unwrap();
    assert_eq!(t(&back, "bucket"), Some("a.s3.b"));
    assert_eq!(t(&back, "region"), Some("us-east-1"));
    let again = op_s3_object_url(back).unwrap();
    assert_eq!(t(&again, "url"), Some(url));
}
