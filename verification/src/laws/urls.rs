//! Laws on percent-encoding, on the URLs of S3 objects and on bytes as text.
use vstd::prelude::*;
use vstd::string::*;
use vstd::utf8::decode_utf8_encode_utf8;
use vstd::utf8::encode_utf8;
use vstd::utf8::encode_utf8_decode_utf8;
use vstd::utf8::encode_utf8_valid_utf8;

use crate::bytes::lossy;
use crate::bytes::utf8_text;
use crate::endpoint::endpoint_parts;
use crate::json::JsonView;
use crate::laws::strings::law_without_leading;
use crate::percent::decoded_key;
use crate::percent::percent_decoded;
use crate::percent::percent_encoded;
use crate::region::dns_suffix;
use crate::region::partition;
use crate::s3url::parse_s3_url;
use crate::s3url::s3_object_url;
use crate::split::lacks;
use crate::split::lemma_cut_char;
use crate::text::last_at;
use crate::text::lemma_cut_last;
use crate::text::occurs_at;

verus! {

/// A character that a path may hold as it is: a letter from A to Z in either case, a digit, or one of
/// `-`, `_`, `.`, `~` and `/`.
pub open spec fn unreserved(n: int) -> bool {
    ||| 65 <= n <= 90 || 97 <= n <= 122 || 48 <= n <= 57
    ||| n == 45 || n == 95 || n == 46 || n == 126 || n == 47
}

/// Bytes are encoded one by one: just the unreserved ones and the slash as they are, and every other
/// one as a percent sign and two hexadecimal digits, with capital letters.
pub proof fn law_bytes_are_encoded_one_by_one(a: Seq<u8>, b: u8)
    ensures
        percent_encoded(Seq::empty()) == Seq::<char>::empty(),
        percent_encoded(seq![b] + a) == percent_encoded(seq![b]) + percent_encoded(a),
        unreserved(b as int) ==> percent_encoded(seq![b]) == seq![b as char],
        !unreserved(b as int) ==> {
            let code = percent_encoded(seq![b]);
            let (high, low) = (b as int / 16, b as int % 16);
            &&& code.len() == 3
            &&& code[0] == '%'
            &&& code[1] as int == high + if high < 10 {
                48int
            } else {
                55int
            }
            &&& code[2] as int == low + if low < 10 {
                48int
            } else {
                55int
            }
        },
{
    reveal_with_fuel(percent_encoded, 2);
    assert((seq![b] + a).skip(1) =~= a);
    assert(seq![b].skip(1) =~= Seq::<u8>::empty());
    assert(percent_encoded(seq![b]) + percent_encoded(a) =~= percent_encoded(seq![b] + a));
}

/// Every character of an encoded path is an unreserved one, a slash or a percent sign: it holds no
/// `#`, `?`, `+`, `&` or space.
pub proof fn law_encoded_path_characters(bytes: Seq<u8>)
    ensures
        forall|i: int|
            0 <= i < percent_encoded(bytes).len() ==> unreserved(
                #[trigger] percent_encoded(bytes)[i] as int,
            ) || percent_encoded(bytes)[i] == '%',
        !percent_encoded(bytes).contains('#'),
        !percent_encoded(bytes).contains('?'),
        !percent_encoded(bytes).contains('+'),
        !percent_encoded(bytes).contains('&'),
        !percent_encoded(bytes).contains(' '),
    decreases bytes.len(),
{
    if bytes.len() > 0 {
        let rest = bytes.skip(1);
        law_encoded_path_characters(rest);
        law_bytes_are_encoded_one_by_one(rest, bytes[0]);
        assert(bytes =~= seq![bytes[0]] + rest);
        let first = percent_encoded(seq![bytes[0]]);
        assert forall|i: int| 0 <= i < percent_encoded(bytes).len() implies unreserved(
            #[trigger] percent_encoded(bytes)[i] as int,
        ) || percent_encoded(bytes)[i] == '%' by {
            if i < first.len() {
                assert(percent_encoded(bytes)[i] == first[i]);
                if unreserved(bytes[0] as int) {
                    assert(first[i] as int == bytes[0] as int);
                }
            } else {
                assert(percent_encoded(bytes)[i] == percent_encoded(rest)[i - first.len()]);
            }
        }
    }
}

/// The number that a hexadecimal digit in either case stands for, and -1 for any other byte.
pub open spec fn digit16(b: u8) -> int {
    if 48 <= b <= 57 {
        b - 48
    } else if 65 <= b <= 70 {
        b - 55
    } else if 97 <= b <= 102 {
        b - 87
    } else {
        -1
    }
}

/// A percent sign with two hexadecimal digits behind it is decoded as the byte that they denote; any
/// other byte, a percent sign without them too, as itself.
pub proof fn law_escapes_are_decoded(high: u8, low: u8, b: u8, rest: Seq<u8>)
    ensures
        digit16(high) >= 0 && digit16(low) >= 0 ==> percent_decoded(seq![37u8, high, low] + rest)
            == seq![(digit16(high) * 16 + digit16(low)) as u8] + percent_decoded(rest),
        b != 37 || rest.len() < 2 || digit16(rest[0]) < 0 || digit16(rest[1]) < 0
            ==> percent_decoded(seq![b] + rest) == seq![b] + percent_decoded(rest),
        percent_decoded(Seq::empty()) == Seq::<u8>::empty(),
{
    let escape = seq![37u8, high, low] + rest;
    assert(escape[0] == 37 && escape[1] == high && escape[2] == low);
    assert(escape.skip(3) =~= rest);
    let plain = seq![b] + rest;
    assert(plain.skip(1) =~= rest);
    assert(plain[0] == b);
    if rest.len() >= 2 {
        assert(plain[1] == rest[0] && plain[2] == rest[1]);
    }
}

/// A path stands for the key whose UTF-8 encoding its bytes are decoded as.
pub proof fn law_path_stands_for_key(path: Seq<char>, key: Seq<char>)
    ensures
        percent_decoded(encode_utf8(path)) == encode_utf8(key) ==> decoded_key(path) == key,
{
    law_text_of_bytes(key);
}

/// The bytes of a text are read as that text.
pub proof fn law_text_of_bytes(text: Seq<char>)
    ensures
        lossy(encode_utf8(text)) == text,
        utf8_text(encode_utf8(text)) == Some(text),
        forall|bytes: Seq<u8>| #[trigger]
            utf8_text(bytes) matches Some(t) ==> encode_utf8(t) == bytes && lossy(bytes) == t,
{
    encode_utf8_valid_utf8(text);
    encode_utf8_decode_utf8(text);
    assert forall|bytes: Seq<u8>| (#[trigger] utf8_text(bytes) matches Some(t) ==> encode_utf8(t)
        == bytes && lossy(bytes) == t) by {
        if utf8_text(bytes) is Some {
            decode_utf8_encode_utf8(bytes);
        }
    }
}

proof fn lemma_names()
    ensures
        "url"@.len() == 3,
        "key"@.len() == 3,
        "key"@ != "url"@,
        "bucket"@.len() == 6,
        "region"@.len() == 6,
        "bucket"@ != "region"@,
        "partition"@.len() == 9,
        "host"@.len() == 4,
        "style"@.len() == 5,
        "dns_suffix"@.len() == 10,
        ""@.len() == 0,
{
    reveal_strlit("url");
    reveal_strlit("key");
    reveal_strlit("bucket");
    reveal_strlit("region");
    reveal_strlit("partition");
    reveal_strlit("host");
    reveal_strlit("style");
    reveal_strlit("dns_suffix");
    reveal_strlit("");
    assert("bucket"@[0] == 'b' && "region"@[0] == 'r' && "key"@[0] == 'k' && "url"@[0] == 'u');
}

/// The URL of an object is `https://`, the host of its bucket, a slash and its key, encoded and
/// without the slashes that it begins with; that of a bucket is without the slash and the key. The
/// host is the bucket, `.s3.`, the region, a dot and the domain of the region's partition.
pub proof fn law_object_url(opts: JsonView, bucket: Seq<char>, region: Seq<char>)
    requires
        opts.text_field("bucket"@) == Some(bucket),
        opts.text_field("region"@) == Some(region),
        bucket.len() > 0,
        region.len() > 0,
    ensures
        s3_object_url(opts) is Ok,
        ({
            let said = s3_object_url(opts)->Ok_0;
            let host = bucket + ".s3."@ + region + "."@ + dns_suffix(partition(region)).unwrap();
            &&& said.text_field("bucket"@) == Some(bucket)
            &&& said.text_field("region"@) == Some(region)
            &&& said.text_field("partition"@) == Some(partition(region))
            &&& said.text_field("host"@) == Some(host)
            &&& said->Object_0.dom() == set!["url"@, "bucket"@, "region"@, "partition"@, "host"@]
            &&& match opts.text_field("key"@) {
                None => said.text_field("url"@) == Some("https://"@ + host),
                Some(key) => {
                    if forall|i: int| 0 <= i < key.len() ==> #[trigger] key[i] == '/' {
                        said.text_field("url"@) == Some("https://"@ + host)
                    } else {
                        exists|n: int|
                            {
                                &&& 0 <= n < key.len() && #[trigger] key[n] != '/'
                                &&& forall|i: int| 0 <= i < n ==> #[trigger] key[i] == '/'
                                &&& said.text_field("url"@) == Some(
                                    "https://"@ + host + "/"@ + percent_encoded(
                                        encode_utf8(key.skip(n)),
                                    ),
                                )
                            }
                    }
                },
            }
        }),
{
    lemma_names();
    let said = s3_object_url(opts)->Ok_0;
    assert(said->Object_0.dom() =~= set!["url"@, "bucket"@, "region"@, "partition"@, "host"@]);
    if let Some(key) = opts.text_field("key"@) {
        let n = law_without_leading(key, '/');
        let host = bucket + ".s3."@ + region + "."@ + dns_suffix(partition(region)).unwrap();
        if n < key.len() {
            assert(key[n] != '/');
            assert(key.skip(n).len() > 0);
            assert(said.text_field("url"@) == Some(
                "https://"@ + host + "/"@ + percent_encoded(encode_utf8(key.skip(n))),
            ));
        } else {
            assert(key.skip(n).len() == 0);
        }
    }
}

/// There is no URL without a bucket and a region, and an empty one of either does not count.
pub proof fn law_object_url_is_refused(opts: JsonView)
    ensures
        s3_object_url(opts) is Err <==> {
            ||| opts.text_field("bucket"@) is None
            ||| opts.text_field("bucket"@).unwrap().len() == 0
            ||| opts.text_field("region"@) is None
            ||| opts.text_field("region"@).unwrap().len() == 0
        },
        s3_object_url(opts) matches Err(message) ==> message == if opts.text_field("bucket"@) is None
            || opts.text_field("bucket"@).unwrap().len() == 0 {
            "missing bucket"@
        } else {
            "missing region"@
        },
{
}

/// A URL is read only where it begins with `https://` or `http://`, and there is none without one.
pub proof fn law_url_has_a_scheme(opts: JsonView)
    ensures
        opts.text_field("url"@) is None ==> parse_s3_url(opts) == Err::<JsonView, Seq<char>>(
            "missing url"@,
        ),
        opts.text_field("url"@) matches Some(url) && !"https://"@.is_prefix_of(url)
            && !"http://"@.is_prefix_of(url) ==> parse_s3_url(opts) == Err::<JsonView, Seq<char>>(
            "S3 URL must start with http(s)://: `"@ + opts.text_field("url"@).unwrap() + "`"@,
        ),
{
}

/// `http://` and `https://` are read alike: but for the URL itself the answers are the same.
pub proof fn law_either_scheme(rest: Seq<char>)
    ensures
        ({
            let safe = parse_s3_url(
                JsonView::Object(map!["url"@ => JsonView::Text("https://"@ + rest)]),
            );
            let plain = parse_s3_url(
                JsonView::Object(map!["url"@ => JsonView::Text("http://"@ + rest)]),
            );
            &&& safe is Ok <==> plain is Ok
            &&& safe is Ok ==> safe->Ok_0->Object_0.remove("url"@)
                == plain->Ok_0->Object_0.remove("url"@)
            &&& safe is Ok ==> safe->Ok_0.text_field("url"@) == Some("https://"@ + rest)
            &&& plain is Ok ==> plain->Ok_0.text_field("url"@) == Some("http://"@ + rest)
        }),
{
    lemma_names();
    reveal_strlit("https://");
    reveal_strlit("http://");
    let (a, b) = ("https://"@ + rest, "http://"@ + rest);
    assert("https://"@[4] == 's' && "http://"@[4] == ':');
    assert(a.subrange(0, 8) =~= "https://"@ && a.skip(8) =~= rest);
    assert(b.subrange(0, 7) =~= "http://"@ && b.skip(7) =~= rest);
    assert(!"https://"@.is_prefix_of(b)) by {
        if "https://"@.is_prefix_of(b) {
            assert(b.subrange(0, 8)[4] == b[4]);
        }
    }
    let safe = parse_s3_url(JsonView::Object(map!["url"@ => JsonView::Text(a)]));
    let plain = parse_s3_url(JsonView::Object(map!["url"@ => JsonView::Text(b)]));
    assert(JsonView::Object(map!["url"@ => JsonView::Text(a)]).text_field("url"@) == Some(a));
    assert(JsonView::Object(map!["url"@ => JsonView::Text(b)]).text_field("url"@) == Some(b));
    if safe is Ok {
        assert(safe->Ok_0->Object_0.remove("url"@) =~= plain->Ok_0->Object_0.remove("url"@));
    }
}

/// The four domains.
pub open spec fn is_domain(suffix: Seq<char>) -> bool {
    ||| suffix == "amazonaws.com"@
    ||| suffix == "amazonaws.com.cn"@
    ||| suffix == "c2s.ic.gov"@
    ||| suffix == "sc2s.sgov.gov"@
}

proof fn lemma_domain(suffix: Seq<char>)
    requires
        is_domain(suffix),
    ensures
        endpoint_parts(suffix) == Some((Seq::<char>::empty(), suffix)),
        lacks(suffix, '/'),
        lacks(suffix, '3'),
{
    reveal_strlit("amazonaws.com");
    reveal_strlit("amazonaws.com.cn");
    reveal_strlit("c2s.ic.gov");
    reveal_strlit("sc2s.sgov.gov");
    let (com, cn, iso, isob) = (
        "amazonaws.com"@,
        "amazonaws.com.cn"@,
        "c2s.ic.gov"@,
        "sc2s.sgov.gov"@,
    );
    assert(suffix.subrange(0, suffix.len() as int) =~= suffix);
    assert(suffix.take(0) =~= Seq::<char>::empty());
    assert(com[12] == 'm' && cn[15] == 'n' && iso[9] == 'v' && isob[12] == 'v');
    assert(iso[5] == 'c' && isob[8] == 'v');
    assert(!cn.is_suffix_of(com) && !cn.is_suffix_of(iso) && !cn.is_suffix_of(isob));
    assert(!isob.is_suffix_of(com) && !isob.is_suffix_of(iso)) by {
        if isob.is_suffix_of(com) {
            assert(com.subrange(0, 13)[12] == com[12]);
        }
    }
    assert(!iso.is_suffix_of(com)) by {
        if iso.is_suffix_of(com) {
            assert(com.subrange(3, 13)[9] == com[12]);
        }
    }
}

/// The endpoint without a region is read too, in virtual-hosted style: the region is empty, and the
/// partition is `aws`.
pub proof fn law_endpoint_without_a_region(bucket: Seq<char>, suffix: Seq<char>)
    requires
        is_domain(suffix),
        bucket.len() > 0,
        bucket != "s3"@,
        !bucket.contains('/'),
    ensures
        ({
            let url = JsonView::Text("https://"@ + bucket + ".s3."@ + suffix);
            parse_s3_url(JsonView::Object(map!["url"@ => url])) == Ok::<JsonView, Seq<char>>(
                JsonView::Object(
                    map![
                        "url"@ => url,
                        "bucket"@ => JsonView::Text(bucket),
                        "key"@ => JsonView::Null,
                        "region"@ => JsonView::Text(Seq::empty()),
                        "partition"@ => JsonView::Text("aws"@),
                        "style"@ => JsonView::Text("virtual-hosted"@),
                        "host"@ => JsonView::Text(bucket + ".s3."@ + suffix),
                        "dns_suffix"@ => JsonView::Text(suffix),
                    ],
                ),
            )
        }),
{
    lemma_names();
    lemma_domain(suffix);
    reveal_strlit(".s3.");
    reveal_strlit("/");
    reveal_strlit("cn-");
    reveal_strlit("us-gov-");
    reveal_strlit("us-iso-");
    reveal_strlit("us-isob-");
    assert("/"@ =~= seq!['/']);
    let mark = ".s3."@;
    let host = bucket + mark + suffix;
    let url = "https://"@ + bucket + ".s3."@ + suffix;
    let head = "https://"@.len() as int;
    assert(url.subrange(0, head) =~= "https://"@);
    assert(url.skip(head) =~= host);
    assert(mark[0] == '.' && mark[1] == 's' && mark[2] == '3' && mark[3] == '.');
    assert forall|i: int| 0 <= i < host.len() implies #[trigger] host[i] != '/' by {
        if i < bucket.len() {
            assert(bucket.contains(bucket[i]));
        } else if i < bucket.len() + 4 {
            assert(host[i] == mark[i - bucket.len()]);
        } else {
            assert(host[i] == suffix[i - bucket.len() - 4]);
        }
    }
    lemma_cut_char(host, '/');
    let n = bucket.len() as int;
    assert(host.subrange(n, n + 4) =~= mark);
    assert forall|j: int| n < j implies !occurs_at(host, mark, j) by {
        if occurs_at(host, mark, j) {
            assert(host.subrange(j, j + 4)[2] == host[j + 2]);
            if j + 2 == n + 3 {
                assert(host[j + 2] == mark[3]);
            } else {
                assert(host[j + 2] == suffix[j + 2 - n - 4]);
            }
        }
    }
    assert(last_at(host, mark, n));
    lemma_cut_last(host, mark, n);
    assert(host.take(n) =~= bucket);
    assert(host.skip(n + 4) =~= suffix);
    let opts = JsonView::Object(map!["url"@ => JsonView::Text(url)]);
    assert(opts.text_field("url"@) == Some(url));
}

/// A host in which `.s3.` does not stand, and which does not begin with `s3.`, is not one of S3.
pub proof fn law_other_hosts_are_refused(host: Seq<char>)
    requires
        !host.contains('/'),
        !"s3."@.is_prefix_of(host),
        forall|j: int|
            0 <= j && j + 4 <= host.len() ==> #[trigger] host.subrange(j, j + 4) != ".s3."@,
    ensures
        parse_s3_url(JsonView::Object(map!["url"@ => JsonView::Text("https://"@ + host)])) == Err::<
            JsonView,
            Seq<char>,
        >("not an S3 URL host `"@ + host + "`"@),
{
    reveal_strlit(".s3.");
    reveal_strlit("/");
    assert("/"@ =~= seq!['/']);
    let url = "https://"@ + host;
    let head = "https://"@.len() as int;
    assert(url.subrange(0, head) =~= "https://"@);
    assert(url.skip(head) =~= host);
    assert forall|i: int| 0 <= i < host.len() implies #[trigger] host[i] != '/' by {
        assert(host.contains(host[i]));
    }
    lemma_cut_char(host, '/');
    assert forall|j: int| !last_at(host, ".s3."@, j) by {
        if last_at(host, ".s3."@, j) {
            assert(host.subrange(j, j + 4) != ".s3."@);
        }
    }
    let opts = JsonView::Object(map!["url"@ => JsonView::Text(url)]);
    assert(opts.text_field("url"@) == Some(url));
}

}
