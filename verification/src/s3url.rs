//! HTTPS URLs of S3 objects, in virtual-hosted and in path style.
use vstd::prelude::*;
use vstd::string::*;
use vstd::utf8::encode_utf8;

use crate::endpoint::endpoint_parts;
use crate::endpoint::lemma_endpoint_parts;
use crate::endpoint::split_s3_endpoint;
use crate::json::outcome;
use crate::json::put;
use crate::json::text_or_null;
use crate::json::Json;
use crate::json::JsonView;
use crate::percent::decode_s3_key;
use crate::percent::decoded_key;
use crate::percent::encode_s3_key;
use crate::percent::law_decode_undoes_encode;
use crate::percent::percent_encoded;
use crate::region::dns_suffix;
use crate::region::dns_suffix_of;
use crate::region::partition;
use crate::region::partition_of;
use crate::split::lacks;
use crate::split::lemma_cut_back;
use crate::split::lemma_cut_char;
use crate::text::after_head;
use crate::text::cut;
use crate::text::cut_last;
use crate::text::last_at;
use crate::text::lemma_cut_last;
use crate::text::occurs_at;
use crate::text::same;
use crate::text::split_last;
use crate::text::split_once;
use crate::text::str_view;
use crate::text::strip_prefix;
use crate::text::without_leading;
use crate::uri::bucket_and_key;
use crate::uri::bucket_path;
use crate::uri::filled;
use crate::uri::key_to_use;
use crate::uri::split_path;
use crate::uri::trimmed_key;
use crate::uri::unless_empty;

verus! {

/// The URL of a bucket's root on `host`, or of the object under a key in it.
pub open spec fn object_url(host: Seq<char>, key: Option<Seq<char>>) -> Seq<char> {
    match key {
        Some(k) => "https://"@ + host + "/"@ + percent_encoded(encode_utf8(k)),
        None => "https://"@ + host,
    }
}

/// What `op_s3_object_url` answers.
pub open spec fn s3_object_url(opts: JsonView) -> Result<JsonView, Seq<char>> {
    match (
        unless_empty(opts.text_field("bucket"@)),
        unless_empty(opts.text_field("region"@)),
    ) {
        (None, _) => Err("missing bucket"@),
        (Some(_), None) => Err("missing region"@),
        (Some(bucket), Some(region)) => match dns_suffix(partition(region)) {
            None => Err("no DNS suffix for partition `"@ + partition(region) + "`"@),
            Some(suffix) => {
                let host = bucket + ".s3."@ + region + "."@ + suffix;
                let key = trimmed_key(opts.text_field("key"@));
                Ok(
                    JsonView::Object(
                        map![
                            "url"@ => JsonView::Text(object_url(host, key)),
                            "bucket"@ => JsonView::Text(bucket),
                            "region"@ => JsonView::Text(region),
                            "partition"@ => JsonView::Text(partition(region)),
                            "host"@ => JsonView::Text(host),
                        ],
                    ),
                )
            },
        },
    }
}

/// What a URL says: where the bucket stands in it, and what it names.
pub ghost struct UrlParts {
    pub style: Seq<char>,
    pub bucket: Seq<char>,
    pub region: Seq<char>,
    pub suffix: Seq<char>,
    pub key: Option<Seq<char>>,
}

/// The key that a path stands for; an empty path stands for none.
pub open spec fn key_of_path(path: Seq<char>) -> Option<Seq<char>> {
    if path.len() == 0 {
        None
    } else {
        Some(decoded_key(path))
    }
}

/// A URL in path style, taken apart: the host is `s3.` and `endpoint`, and the bucket is the first
/// segment of the path.
pub open spec fn path_style(url: Seq<char>, endpoint: Seq<char>, path: Seq<char>) -> Result<
    UrlParts,
    Seq<char>,
> {
    match endpoint_parts(endpoint) {
        None => Err("unrecognized S3 endpoint host `"@ + endpoint + "`"@),
        Some((region, suffix)) => {
            let (bucket, rest) = bucket_and_key(path);
            if bucket.len() == 0 {
                Err("path-style S3 URL has no bucket: `"@ + url + "`"@)
            } else {
                Ok(
                    UrlParts {
                        style: "path"@,
                        bucket,
                        region,
                        suffix,
                        key: key_of_path(rest.unwrap_or(""@)),
                    },
                )
            }
        },
    }
}

/// A URL in virtual-hosted style, taken apart: the bucket is what stands before the last `.s3.` in
/// the host.
pub open spec fn hosted_style(url: Seq<char>, host: Seq<char>, path: Seq<char>) -> Result<
    UrlParts,
    Seq<char>,
> {
    match cut_last(host, ".s3."@) {
        None => Err("not an S3 URL host `"@ + host + "`"@),
        Some((bucket, endpoint)) => if bucket.len() == 0 {
            Err("virtual-hosted S3 URL has no bucket: `"@ + url + "`"@)
        } else {
            match endpoint_parts(endpoint) {
                None => Err("unrecognized S3 endpoint host `"@ + endpoint + "`"@),
                Some((region, suffix)) => Ok(
                    UrlParts {
                        style: "virtual-hosted"@,
                        bucket,
                        region,
                        suffix,
                        key: key_of_path(path),
                    },
                ),
            }
        },
    }
}

/// The endpoint in a host in path style: what follows `s3.`. A host with a bucket before `.s3.` is
/// not in path style, unless the bucket is `s3`.
pub open spec fn bare_endpoint(host: Seq<char>) -> Option<Seq<char>> {
    match cut_last(host, ".s3."@) {
        Some((bucket, _)) if bucket != "s3"@ => None,
        _ => after_head(host, "s3."@),
    }
}

/// What follows the scheme of a URL.
pub open spec fn after_scheme(url: Seq<char>) -> Option<Seq<char>> {
    match after_head(url, "https://"@) {
        Some(rest) => Some(rest),
        None => after_head(url, "http://"@),
    }
}

/// What `op_parse_s3_url` answers.
pub open spec fn parse_s3_url(opts: JsonView) -> Result<JsonView, Seq<char>> {
    match opts.text_field("url"@) {
        None => Err("missing url"@),
        Some(url) => match after_scheme(url) {
            None => Err("S3 URL must start with http(s)://: `"@ + url + "`"@),
            Some(rest) => {
                let (host, path) = match cut(rest, "/"@) {
                    Some((h, p)) => (h, p),
                    None => (rest, ""@),
                };
                let parts = match bare_endpoint(host) {
                    Some(endpoint) => path_style(url, endpoint, path),
                    None => hosted_style(url, host, path),
                };
                match parts {
                    Err(message) => Err(message),
                    Ok(said) => Ok(
                        JsonView::Object(
                            map![
                                "url"@ => JsonView::Text(url),
                                "bucket"@ => JsonView::Text(said.bucket),
                                "key"@ => text_or_null(said.key),
                                "region"@ => JsonView::Text(said.region),
                                "partition"@ => JsonView::Text(partition(said.region)),
                                "style"@ => JsonView::Text(said.style),
                                "host"@ => JsonView::Text(host),
                                "dns_suffix"@ => JsonView::Text(said.suffix),
                            ],
                        ),
                    ),
                }
            },
        },
    }
}

/// A region that has no label `s3`, and so no `.s3.` where it stands in a host.
pub open spec fn no_s3_label(region: Seq<char>) -> bool {
    forall|i: int| !#[trigger] occurs_at("."@ + region + "."@, ".s3."@, i)
}

/// The marker does not stand anywhere behind the one that follows a bucket.
proof fn lemma_no_later_marker(bucket: Seq<char>, region: Seq<char>, suffix: Seq<char>, j: int)
    requires
        no_s3_label(region),
        lacks(suffix, '3'),
        bucket.len() < j,
    ensures
        !occurs_at(bucket + ".s3."@ + region + "."@ + suffix, ".s3."@, j),
{
    reveal_strlit(".s3.");
    reveal_strlit(".");
    let mark = ".s3."@;
    let host = bucket + mark + region + "."@ + suffix;
    let inner = "."@ + region + "."@;
    let n = bucket.len() as int;
    assert(mark[0] == '.' && mark[1] == 's' && mark[2] == '3' && mark[3] == '.' && mark.len() == 4);
    assert("."@.len() == 1 && "."@[0] == '.');
    if occurs_at(host, mark, j) {
        let found = host.subrange(j, j + 4);
        assert(found[0] == host[j] && found[1] == host[j + 1] && found[2] == host[j + 2]);
        if j < n + 3 {
            assert(host[j] == mark[j - n]);
        } else if j + 4 <= n + 3 + inner.len() {
            assert forall|k: int| n + 3 <= k < n + 3 + inner.len() implies #[trigger] host[k]
                == inner[k - n - 3] by {
                if k == n + 3 {
                    assert(host[k] == mark[3]);
                } else if k < n + 4 + region.len() {
                    assert(host[k] == region[k - n - 4]);
                } else {
                    assert(host[k] == "."@[0]);
                }
            }
            let at = j - n - 3;
            assert(inner.subrange(at, at + 4) =~= found);
            assert(occurs_at(inner, mark, at));
        } else if j + 2 == n + 4 + region.len() {
            assert(host[j + 2] == "."@[0]);
        } else {
            assert(host[j + 2] == suffix[j + 2 - n - 5 - region.len()]);
        }
    }
}

/// The marker behind a bucket is the last one.
proof fn lemma_marker(bucket: Seq<char>, region: Seq<char>, suffix: Seq<char>)
    requires
        no_s3_label(region),
        lacks(suffix, '3'),
    ensures
        cut_last(bucket + ".s3."@ + region + "."@ + suffix, ".s3."@) == Some(
            (bucket, region + "."@ + suffix),
        ),
{
    let mark = ".s3."@;
    let host = bucket + mark + region + "."@ + suffix;
    let n = bucket.len() as int;
    assert(host.subrange(n, n + mark.len()) =~= mark);
    assert forall|j: int| n < j implies !occurs_at(host, mark, j) by {
        lemma_no_later_marker(bucket, region, suffix, j);
    }
    assert(last_at(host, mark, n));
    lemma_cut_last(host, mark, n);
    assert(host.take(n) =~= bucket);
    assert(host.skip(n + mark.len()) =~= region + "."@ + suffix);
}

proof fn lemma_url_names()
    ensures
        "url"@.len() == 3,
        "bucket"@.len() == 6,
        "region"@.len() == 6,
        "bucket"@ != "region"@,
        "partition"@.len() == 9,
        "host"@.len() == 4,
        "key"@.len() == 3,
        "key"@ != "url"@,
        "style"@.len() == 5,
        "dns_suffix"@.len() == 10,
{
    reveal_strlit("url");
    reveal_strlit("bucket");
    reveal_strlit("region");
    reveal_strlit("partition");
    reveal_strlit("host");
    reveal_strlit("key");
    reveal_strlit("style");
    reveal_strlit("dns_suffix");
    assert("bucket"@[0] == 'b' && "region"@[0] == 'r' && "key"@[0] == 'k' && "url"@[0] == 'u');
}

/// A URL that was put together from a host and a path falls apart into them.
proof fn lemma_object_url(host: Seq<char>, key: Option<Seq<char>>)
    requires
        lacks(host, '/'),
        key matches Some(k) ==> k.len() > 0,
    ensures
        after_scheme(object_url(host, key)) is Some,
        ({
            let rest = after_scheme(object_url(host, key)).unwrap();
            match key {
                Some(k) => cut(rest, "/"@) == Some((host, percent_encoded(encode_utf8(k))))
                    && percent_encoded(encode_utf8(k)).len() > 0,
                None => cut(rest, "/"@) is None && rest == host,
            }
        }),
{
    reveal_strlit("/");
    assert("/"@ =~= seq!['/']);
    let url = object_url(host, key);
    let n = "https://"@.len() as int;
    assert(url.subrange(0, n) =~= "https://"@);
    match key {
        Some(k) => {
            let path = percent_encoded(encode_utf8(k));
            assert(url.skip(n) =~= host + "/"@ + path);
            lemma_cut_back(host, '/', path);
            law_decode_undoes_encode(k);
            if path.len() == 0 {
                lemma_empty_path();
                assert(path =~= Seq::<char>::empty());
            }
        },
        None => {
            assert(url.skip(n) =~= host);
            lemma_cut_char(host, '/');
        },
    }
}

/// The empty path stands for the empty key.
proof fn lemma_empty_path()
    ensures
        decoded_key(Seq::<char>::empty()).len() == 0,
{
    let none = Seq::<char>::empty();
    assert(encode_utf8(none) =~= Seq::<u8>::empty());
    assert(percent_encoded(encode_utf8(none)) =~= none);
    law_decode_undoes_encode(none);
}

/// `parse_s3_url` undoes `s3_object_url`, for every bucket but `s3`: the bucket, the region and the
/// key, without the slashes that it began with, come back. Neither a bucket nor a region holds a
/// slash; a region has no label `s3` and does not end in a dot.
pub proof fn law_parse_undoes_object_url(opts: JsonView)
    requires
        s3_object_url(opts) is Ok,
        opts.text_field("bucket"@).unwrap() != "s3"@,
        lacks(opts.text_field("bucket"@).unwrap(), '/'),
        no_s3_label(opts.text_field("region"@).unwrap()),
        lacks(opts.text_field("region"@).unwrap(), '/'),
        opts.text_field("region"@).unwrap().last() != '.',
    ensures
        ({
            let built = s3_object_url(opts)->Ok_0;
            let back = parse_s3_url(built);
            &&& back is Ok
            &&& back->Ok_0.text_field("style"@) == Some("virtual-hosted"@)
            &&& back->Ok_0.field("url"@) == built.field("url"@)
            &&& back->Ok_0.field("bucket"@) == built.field("bucket"@)
            &&& back->Ok_0.field("region"@) == built.field("region"@)
            &&& back->Ok_0.field("partition"@) == built.field("partition"@)
            &&& back->Ok_0.field("host"@) == built.field("host"@)
            &&& back->Ok_0.field("key"@) == Some(
                text_or_null(trimmed_key(opts.text_field("key"@))),
            )
        }),
{
    lemma_url_names();
    let bucket = opts.text_field("bucket"@).unwrap();
    let region = opts.text_field("region"@).unwrap();
    let suffix = dns_suffix(partition(region)).unwrap();
    let key = trimmed_key(opts.text_field("key"@));
    let host = bucket + ".s3."@ + region + "."@ + suffix;
    lemma_endpoint_parts(region, suffix);
    lemma_marker(bucket, region, suffix);
    assert(lacks(host, '/')) by {
        reveal_strlit(".");
        reveal_strlit(".s3.");
        let a = bucket + ".s3."@;
        let b = a + region;
        let d = b + "."@;
        assert forall|i: int| 0 <= i < host.len() implies #[trigger] host[i] != '/' by {
            if i < bucket.len() {
                assert(host[i] == bucket[i]);
            } else if i < a.len() {
                assert(host[i] == ".s3."@[i - bucket.len()]);
            } else if i < b.len() {
                assert(host[i] == region[i - a.len()]);
            } else if i < d.len() {
                assert(host[i] == '.');
            } else {
                assert(host[i] == suffix[i - d.len()]);
            }
        }
    }
    lemma_object_url(host, key);
    let built = s3_object_url(opts)->Ok_0;
    assert(built.text_field("url"@) == Some(object_url(host, key)));
    if let Some(k) = key {
        law_decode_undoes_encode(k);
    }
    reveal_strlit("");
}

/// `s3_object_url` undoes `parse_s3_url`: what is read off a URL in virtual-hosted style that names a
/// region of the domain that it is in makes up the URL again, even where more than one bucket and
/// region would. The URL is written as `s3_object_url` writes one, with a single dot on either side of
/// the region.
pub proof fn law_object_url_undoes_parse(opts: JsonView, host: Seq<char>, key: Option<Seq<char>>)
    requires
        opts.text_field("url"@) == Some(object_url(host, key)),
        lacks(host, '/'),
        key matches Some(k) ==> k.len() > 0 && k[0] != '/',
        parse_s3_url(opts) is Ok,
        ({
            let said = parse_s3_url(opts)->Ok_0;
            let bucket = said.text_field("bucket"@).unwrap();
            let region = said.text_field("region"@).unwrap();
            let suffix = said.text_field("dns_suffix"@).unwrap();
            &&& said.text_field("style"@) == Some("virtual-hosted"@)
            &&& region.len() > 0
            &&& dns_suffix(partition(region)) == Some(suffix)
            &&& host == bucket + ".s3."@ + region + "."@ + suffix
        }),
    ensures
        s3_object_url(parse_s3_url(opts)->Ok_0) is Ok,
        s3_object_url(parse_s3_url(opts)->Ok_0)->Ok_0.text_field("url"@) == opts.text_field(
            "url"@,
        ),
        parse_s3_url(opts)->Ok_0.field("key"@) == Some(text_or_null(key)),
{
    lemma_url_names();
    lemma_styles();
    lemma_object_url(host, key);
    reveal_strlit("");
    if let Some(k) = key {
        law_decode_undoes_encode(k);
        assert(without_leading(k, '/') == k);
    }
    let said = parse_s3_url(opts)->Ok_0;
    assert(said.text_field("key"@) == key);
    assert(trimmed_key(key) == key);
}

proof fn lemma_styles()
    ensures
        "path"@ != "virtual-hosted"@,
{
    reveal_strlit("path");
    reveal_strlit("virtual-hosted");
    assert("path"@.len() == 4 && "virtual-hosted"@.len() == 14);
}

/// The URL in path style of a bucket on the endpoint of a region, or of the object under a key in
/// it.
pub open spec fn path_url(
    region: Seq<char>,
    suffix: Seq<char>,
    bucket: Seq<char>,
    key: Option<Seq<char>>,
) -> Seq<char> {
    "https://"@ + ("s3."@ + region + "."@ + suffix) + "/"@ + bucket_path(bucket, encoded(key))
}

/// A key, percent-encoded.
pub open spec fn encoded(key: Option<Seq<char>>) -> Option<Seq<char>> {
    match key {
        Some(k) => Some(percent_encoded(encode_utf8(k))),
        None => None,
    }
}

/// Such a host has no slash in it.
proof fn lemma_path_host(region: Seq<char>, suffix: Seq<char>)
    requires
        lacks(region, '/'),
        lacks(suffix, '/'),
    ensures
        lacks("s3."@ + region + "."@ + suffix, '/'),
{
    reveal_strlit(".");
    reveal_strlit("s3.");
    let host = "s3."@ + region + "."@ + suffix;
    assert forall|i: int| 0 <= i < host.len() implies #[trigger] host[i] != '/' by {
        if i < 3 {
            assert(host[i] == "s3."@[i]);
        } else if i < 3 + region.len() {
            assert(host[i] == region[i - 3]);
        } else if i == 3 + region.len() {
            assert(host[i] == "."@[0]);
        } else {
            assert(host[i] == suffix[i - 4 - region.len()]);
        }
    }
}

/// Such a URL falls apart into host, bucket and key.
proof fn lemma_path_url(
    region: Seq<char>,
    suffix: Seq<char>,
    bucket: Seq<char>,
    key: Option<Seq<char>>,
)
    requires
        lacks("s3."@ + region + "."@ + suffix, '/'),
        lacks(bucket, '/'),
        key matches Some(k) ==> k.len() > 0,
    ensures
        ({
            let host = "s3."@ + region + "."@ + suffix;
            let path = bucket_path(bucket, encoded(key));
            let rest = after_scheme(path_url(region, suffix, bucket, key));
            &&& rest is Some
            &&& cut(rest.unwrap(), "/"@) == Some((host, path))
            &&& bucket_and_key(path).0 == bucket
            &&& key_of_path(bucket_and_key(path).1.unwrap_or(""@)) == key
        }),
{
    reveal_strlit("/");
    assert("/"@ =~= seq!['/']);
    let host = "s3."@ + region + "."@ + suffix;
    let path = bucket_path(bucket, encoded(key));
    let url = path_url(region, suffix, bucket, key);
    let n = "https://"@.len() as int;
    assert(url.subrange(0, n) =~= "https://"@);
    assert(url.skip(n) =~= host + seq!['/'] + path);
    lemma_cut_back(host, '/', path);
    match key {
        Some(k) => {
            let code = percent_encoded(encode_utf8(k));
            assert(path =~= bucket + seq!['/'] + code);
            lemma_cut_back(bucket, '/', code);
            law_decode_undoes_encode(k);
            if code.len() == 0 {
                lemma_empty_path();
                assert(code =~= Seq::<char>::empty());
            }
        },
        None => {
            lemma_cut_char(bucket, '/');
            reveal_strlit("");
        },
    }
}

/// The host of such a URL is that of an endpoint, with no bucket in it.
proof fn lemma_bare_endpoint(region: Seq<char>, suffix: Seq<char>)
    requires
        no_s3_label(region),
        lacks(suffix, '3'),
    ensures
        bare_endpoint("s3."@ + region + "."@ + suffix) == Some(region + "."@ + suffix),
{
    reveal_strlit("s3.");
    reveal_strlit(".s3.");
    let mark = ".s3."@;
    let host = "s3."@ + region + "."@ + suffix;
    let none = Seq::<char>::empty();
    let longer = none + mark + region + "."@ + suffix;
    assert(mark =~= seq!['.'] + "s3."@);
    assert(longer =~= seq!['.'] + host);
    assert forall|j: int| !occurs_at(host, mark, j) by {
        if occurs_at(host, mark, j) {
            assert(longer.subrange(j + 1, j + 1 + mark.len()) =~= host.subrange(
                j,
                j + mark.len(),
            ));
            lemma_no_later_marker(none, region, suffix, j + 1);
        }
    }
    assert forall|j: int| !last_at(host, mark, j) by {
        assert(!occurs_at(host, mark, j));
    }
    assert(host.subrange(0, 3) =~= "s3."@);
    assert(host.skip(3) =~= region + "."@ + suffix);
}

/// `parse_s3_url` reads a URL in path style as what it names: the bucket, the region and the key.
/// Neither a bucket nor a region holds a slash; a region has no label `s3` and does not end in a
/// dot.
pub proof fn law_path_style(
    region: Seq<char>,
    suffix: Seq<char>,
    bucket: Seq<char>,
    key: Option<Seq<char>>,
)
    requires
        dns_suffix(partition(region)) == Some(suffix),
        region.len() > 0,
        region.last() != '.',
        lacks(region, '/'),
        no_s3_label(region),
        bucket.len() > 0,
        lacks(bucket, '/'),
        key matches Some(k) ==> k.len() > 0,
    ensures
        ({
            let url = JsonView::Text(path_url(region, suffix, bucket, key));
            parse_s3_url(JsonView::Object(map!["url"@ => url])) == Ok::<JsonView, Seq<char>>(
                JsonView::Object(
                    map![
                        "url"@ => url,
                        "bucket"@ => JsonView::Text(bucket),
                        "key"@ => text_or_null(key),
                        "region"@ => JsonView::Text(region),
                        "partition"@ => JsonView::Text(partition(region)),
                        "style"@ => JsonView::Text("path"@),
                        "host"@ => JsonView::Text("s3."@ + region + "."@ + suffix),
                        "dns_suffix"@ => JsonView::Text(suffix),
                    ],
                ),
            )
        }),
{
    let host = "s3."@ + region + "."@ + suffix;
    let url = path_url(region, suffix, bucket, key);
    lemma_endpoint_parts(region, suffix);
    lemma_bare_endpoint(region, suffix);
    lemma_path_host(region, suffix);
    lemma_path_url(region, suffix, bucket, key);
    lemma_url_names();
    let opts = JsonView::Object(map!["url"@ => JsonView::Text(url)]);
    assert(opts.text_field("url"@) == Some(url));
    assert(path_style(url, region + "."@ + suffix, bucket_path(bucket, encoded(key)))
        == Ok::<UrlParts, Seq<char>>(
        UrlParts { style: "path"@, bucket, region, suffix, key },
    ));
}

/// Builds the URL of the object under `key` in `bucket`, in `region`, or without a key that of the
/// bucket's root.
pub fn op_s3_object_url(opts: Json) -> (answer: Result<Json, String>)
    ensures
        outcome(answer) == s3_object_url(opts@),
{
    let bucket = match filled(opts.text_at("bucket")) {
        Some(bucket) => bucket,
        None => return Err("missing bucket".to_owned()),
    };
    let region = match filled(opts.text_at("region")) {
        Some(region) => region,
        None => return Err("missing region".to_owned()),
    };
    let partition = partition_of(region);
    let suffix = match dns_suffix_of(partition) {
        Some(suffix) => suffix,
        None => return Err(
            "no DNS suffix for partition `".to_owned().concat(partition).concat("`"),
        ),
    };
    let host = bucket.to_owned().concat(".s3.").concat(region).concat(".").concat(suffix);
    let root = "https://".to_owned().concat(host.as_str());
    let url = match key_to_use(opts.text_at("key")) {
        Some(key) => root.concat("/").concat(encode_s3_key(key).as_str()),
        None => root,
    };
    let mut out: Vec<(String, Json)> = Vec::new();
    put(&mut out, "url", Json::Text(url));
    put(&mut out, "bucket", Json::text(bucket));
    put(&mut out, "region", Json::text(region));
    put(&mut out, "partition", Json::text(partition));
    put(&mut out, "host", Json::Text(host));
    Ok(Json::Object(out))
}

/// What a URL says.
struct Parsed {
    style: &'static str,
    bucket: String,
    region: String,
    suffix: &'static str,
    key: Option<String>,
}

impl View for Parsed {
    type V = UrlParts;

    closed spec fn view(&self) -> UrlParts {
        UrlParts {
            style: self.style@,
            bucket: self.bucket@,
            region: self.region@,
            suffix: self.suffix@,
            key: match self.key {
                Some(k) => Some(k@),
                None => None,
            },
        }
    }
}

spec fn parsed(parts: Result<Parsed, String>) -> Result<UrlParts, Seq<char>> {
    match parts {
        Ok(said) => Ok(said@),
        Err(message) => Err(message@),
    }
}

/// The key that a path stands for.
fn path_key(path: &str) -> (key: Option<String>)
    ensures
        match key {
            Some(k) => key_of_path(path@) == Some(k@),
            None => key_of_path(path@) is None,
        },
{
    if path.is_empty() {
        None
    } else {
        Some(decode_s3_key(path))
    }
}

/// Takes a URL in path style apart.
fn parse_path_style(url: &str, endpoint: &str, path: &str) -> (parts: Result<Parsed, String>)
    ensures
        parsed(parts) == path_style(url@, endpoint@, path@),
{
    let (region, suffix) = match split_s3_endpoint(endpoint) {
        Ok(parts) => parts,
        Err(message) => return Err(message),
    };
    let (bucket, rest) = split_path(path);
    if bucket.is_empty() {
        return Err("path-style S3 URL has no bucket: `".to_owned().concat(url).concat("`"));
    }
    let key = path_key(rest.unwrap_or(""));
    Ok(Parsed { style: "path", bucket: bucket.to_owned(), region, suffix, key })
}

/// Takes a URL in virtual-hosted style apart.
fn parse_hosted_style(url: &str, host: &str, path: &str) -> (parts: Result<Parsed, String>)
    ensures
        parsed(parts) == hosted_style(url@, host@, path@),
{
    proof {
        reveal_strlit(".s3.");
    }
    let (bucket, endpoint) = match split_last(host, ".s3.") {
        Some(halves) => halves,
        None => return Err("not an S3 URL host `".to_owned().concat(host).concat("`")),
    };
    if bucket.is_empty() {
        return Err("virtual-hosted S3 URL has no bucket: `".to_owned().concat(url).concat("`"));
    }
    let (region, suffix) = match split_s3_endpoint(endpoint) {
        Ok(parts) => parts,
        Err(message) => return Err(message),
    };
    let key = path_key(path);
    Ok(Parsed { style: "virtual-hosted", bucket: bucket.to_owned(), region, suffix, key })
}

/// The endpoint in a host in path style.
fn endpoint_of_host<'a>(host: &'a str) -> (endpoint: Option<&'a str>)
    ensures
        str_view(endpoint) == bare_endpoint(host@),
{
    proof {
        reveal_strlit(".s3.");
    }
    match split_last(host, ".s3.") {
        Some((bucket, _)) => {
            if same(bucket, "s3") {
                strip_prefix(host, "s3.")
            } else {
                None
            }
        },
        None => strip_prefix(host, "s3."),
    }
}

/// Takes the `url` of a bucket or an object apart.
pub fn op_parse_s3_url(opts: Json) -> (answer: Result<Json, String>)
    ensures
        outcome(answer) == parse_s3_url(opts@),
{
    let url = match opts.text_at("url") {
        Some(url) => url,
        None => return Err("missing url".to_owned()),
    };
    let found = match strip_prefix(url, "https://") {
        Some(rest) => Some(rest),
        None => strip_prefix(url, "http://"),
    };
    let rest = match found {
        Some(rest) => rest,
        None => return Err(
            "S3 URL must start with http(s)://: `".to_owned().concat(url).concat("`"),
        ),
    };
    proof {
        reveal_strlit("/");
    }
    let (host, path) = match split_once(rest, "/") {
        Some(halves) => halves,
        None => (rest, ""),
    };
    let parts = match endpoint_of_host(host) {
        Some(endpoint) => parse_path_style(url, endpoint, path),
        None => parse_hosted_style(url, host, path),
    };
    let said = match parts {
        Ok(said) => said,
        Err(message) => return Err(message),
    };
    let partition = partition_of(said.region.as_str());
    let mut out: Vec<(String, Json)> = Vec::new();
    put(&mut out, "url", Json::text(url));
    put(&mut out, "bucket", Json::Text(said.bucket));
    put(
        &mut out,
        "key",
        match said.key {
            Some(key) => Json::Text(key),
            None => Json::Null,
        },
    );
    put(&mut out, "region", Json::Text(said.region));
    put(&mut out, "partition", Json::text(partition));
    put(&mut out, "style", Json::text(said.style));
    put(&mut out, "host", Json::text(host));
    put(&mut out, "dns_suffix", Json::text(said.suffix));
    Ok(Json::Object(out))
}

}
