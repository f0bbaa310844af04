use stryke_aws::decimal::decimal_text;
use stryke_aws::decimal::parse_i64;
use stryke_aws::endpoint::split_s3_endpoint;
use stryke_aws::glob::iam_glob_match;
use stryke_aws::percent::decode_s3_key;
use stryke_aws::percent::encode_s3_key;
use stryke_aws::region::dns_suffix_of;
use stryke_aws::region::partition_of;
use stryke_aws::split::split_all;
use stryke_aws::split::split_either;
use stryke_aws::split::split_up_to;
use stryke_aws::text::split_once;
use stryke_aws::text::strip_prefix;
use stryke_aws::text::strip_suffix;
use stryke_aws::text::to_lower;
use stryke_aws::text::to_upper;
use stryke_aws::text::trim;
use stryke_aws::text::trim_end;
use stryke_aws::text::trim_start;

const SAMPLES: [&str; 12] = [
    "",
    "a",
    ":",
    "a:b",
    "::",
    "é:ß:☃",
    "𐍈",
    "x𐍈:y",
    "arn:aws:s3:::b/k:v",
    " \u{a0}pad\u{3000}",
    "//a/b//",
    "ΑΩaZ",
];

#[test]
fn cutting_agrees_with_the_standard_library() {
    for text in SAMPLES {
        for mark in [":", "/", "::", "☃", ".s3."] {
            assert_eq!(split_once(text, mark), text.split_once(mark), "{text:?} at {mark:?}");
            assert_eq!(strip_prefix(text, mark), text.strip_prefix(mark));
            assert_eq!(strip_suffix(text, mark), text.strip_suffix(mark));
            assert_eq!(split_all(text, mark), text.split(mark).collect::<Vec<_>>());
            for n in 1..5 {
                assert_eq!(split_up_to(text, mark, n), text.splitn(n, mark).collect::<Vec<_>>());
            }
        }
        assert_eq!(trim_start(text, "/"), text.trim_start_matches('/'));
        assert_eq!(trim_end(text, "/"), text.trim_end_matches('/'));
        assert_eq!(trim(text), text.trim());
        assert_eq!(to_lower(text), text.to_ascii_lowercase());
        assert_eq!(to_upper(text), text.to_ascii_uppercase());
        assert_eq!(split_either(text, "/", ":"), text.split_once(['/', ':']));
    }
}

#[test]
fn white_space_is_that_of_the_standard_library() {
    for code in 0..0x11000u32 {
        if let Some(c) = char::from_u32(code) {
            let text = format!("{c}x{c}");
            assert_eq!(trim(&text), text.trim(), "{code:x}");
        }
    }
}

#[test]
fn whole_numbers_agree_with_the_standard_library() {
    for text in [
        "",
        "+",
        "-",
        "0",
        "-0",
        "+7",
        "007",
        "-12345",
        "9223372036854775807",
        "9223372036854775808",
        "-9223372036854775808",
        "-9223372036854775809",
        "99999999999999999999999999",
        "1e3",
        "1.0",
        " 1",
        "١",
    ] {
        assert_eq!(parse_i64(text), text.parse::<i64>().ok(), "{text:?}");
    }
    for n in [0, 9, 10, 123, u64::MAX] {
        assert_eq!(decimal_text(n), n.to_string());
    }
}

#[test]
fn keys_survive_the_path_of_a_url() {
    for key in SAMPLES {
        assert_eq!(decode_s3_key(&encode_s3_key(key)), key);
    }
    assert_eq!(encode_s3_key("A-z_0.~/ %é"), "A-z_0.~/%20%25%C3%A9");
    // An escape that is not one is left alone.
    assert_eq!(decode_s3_key("%"), "%");
    assert_eq!(decode_s3_key("%4"), "%4");
    assert_eq!(decode_s3_key("%zz%41%4a%4A"), "%zzAJJ");
    assert_eq!(decode_s3_key("a%2"), "a%2");
    // Bytes that are no text are replaced.
    assert_eq!(decode_s3_key("a%FFb"), "a\u{fffd}b");
}

#[test]
fn patterns_match_whole_texts() {
    let m = |p: &str, t: &str| iam_glob_match(p.as_bytes(), t.as_bytes());
    assert!(m("*", ""));
    assert!(m("a*b*c", "aXbYbZc"));
    assert!(!m("a*b*c", "aXbYbZ"));
    assert!(m("a?c", "abc"));
    assert!(!m("a?c", "ac"));
    assert!(m("*a", "*aa"));
    assert!(m("prefix*", "prefix*and more"));
    // A question mark stands for one byte.
    assert!(!m("?", "é"));
    assert!(m("??", "é"));
}

#[test]
fn endpoints_are_split_at_the_domain() {
    let of = |ep: &str| split_s3_endpoint(ep).map(|(r, s)| (r, s.to_string()));
    assert_eq!(of("us-east-1.amazonaws.com").unwrap(), ("us-east-1".into(), "amazonaws.com".into()));
    assert_eq!(
        of("cn-north-1.amazonaws.com.cn").unwrap(),
        ("cn-north-1".into(), "amazonaws.com.cn".into())
    );
    assert_eq!(of("r..c2s.ic.gov").unwrap(), ("r".into(), "c2s.ic.gov".into()));
    assert_eq!(of("sc2s.sgov.gov").unwrap(), ("".into(), "sc2s.sgov.gov".into()));
    assert_eq!(of("example.com").unwrap_err(), "unrecognized S3 endpoint host `example.com`");
}

#[test]
fn every_region_has_a_domain() {
    for region in ["", "x", "cn-1", "us-gov-1", "us-iso-", "us-isob-", "us-isobe-1"] {
        assert!(dns_suffix_of(partition_of(region)).is_some(), "{region}");
    }
    assert_eq!(dns_suffix_of("aws-moon"), None);
}
