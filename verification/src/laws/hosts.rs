//! Laws on reading the URLs of S3 objects, in either style.
use vstd::prelude::*;
use vstd::string::*;

use crate::endpoint::endpoint_parts;
use crate::json::Json;
use crate::json::JsonView;
use crate::laws::services::refused;
use crate::laws::strings::law_after_head;
use crate::laws::strings::law_cut_last;
use crate::percent::decoded_key;
use crate::region::partition;
use crate::s3url::after_scheme;
use crate::s3url::bare_endpoint;
use crate::s3url::op_parse_s3_url;
use crate::split::lacks;
use crate::split::lemma_cut_back;
use crate::split::lemma_cut_char;
use crate::text::cut;
use crate::text::cut_last;

verus! {

/// A first part, and a slash and a second one behind it, if there is a slash.
pub open spec fn slashed(first: Seq<char>, slash: bool, second: Seq<char>) -> Seq<char> {
    if slash {
        first + seq!['/'] + second
    } else {
        first
    }
}

/// `.s3.` stands in a host at a place.
pub open spec fn s3_at(host: Seq<char>, at: int) -> bool {
    0 <= at && at + 4 <= host.len() && host.subrange(at, at + 4) == ".s3."@
}

/// The host of a URL in path style: it begins with `s3.`, and no `.s3.` stands in it but right behind
/// the first two characters.
pub open spec fn is_path_host(host: Seq<char>) -> bool {
    "s3."@.is_prefix_of(host) && forall|j: int| 2 < j ==> !#[trigger] s3_at(host, j)
}

/// What is answered of a URL that was read. An empty path or rest of a path names no key.
pub open spec fn reads(
    said: JsonView,
    url: Seq<char>,
    style: Seq<char>,
    host: Seq<char>,
    bucket: Seq<char>,
    region: Seq<char>,
    suffix: Seq<char>,
    key: Seq<char>,
) -> bool {
    said == JsonView::Object(
        map![
            "url"@ => JsonView::Text(url),
            "bucket"@ => JsonView::Text(bucket),
            "key"@ => if key.len() == 0 {
                JsonView::Null
            } else {
                JsonView::Text(decoded_key(key))
            },
            "region"@ => JsonView::Text(region),
            "partition"@ => JsonView::Text(partition(region)),
            "style"@ => JsonView::Text(style),
            "host"@ => JsonView::Text(host),
            "dns_suffix"@ => JsonView::Text(suffix),
        ],
    )
}

proof fn lemma_lacks(text: Seq<char>)
    requires
        !text.contains('/'),
    ensures
        lacks(text, '/'),
{
    assert forall|i: int| 0 <= i < text.len() implies #[trigger] text[i] != '/' by {
        assert(text.contains(text[i]));
    }
}

proof fn lemma_slashed(first: Seq<char>, slash: bool, second: Seq<char>)
    requires
        !first.contains('/'),
        !slash ==> second.len() == 0,
    ensures
        "/"@ == seq!['/'],
        cut(slashed(first, slash, second), "/"@) == if slash {
            Some((first, second))
        } else {
            None
        },
{
    reveal_strlit("/");
    assert("/"@ =~= seq!['/']);
    lemma_lacks(first);
    if slash {
        lemma_cut_back(first, '/', second);
    } else {
        lemma_cut_char(first, '/');
    }
}

/// Both schemes are passed over.
pub proof fn law_scheme(scheme: Seq<char>, rest: Seq<char>)
    requires
        scheme == "https://"@ || scheme == "http://"@,
    ensures
        after_scheme(scheme + rest) == Some(rest),
{
    reveal_strlit("https://");
    reveal_strlit("http://");
    let url = scheme + rest;
    law_after_head(url, scheme, rest);
    if scheme == "http://"@ {
        assert("https://"@[4] == 's' && "http://"@[4] == ':');
        assert(url[4] == ':');
        assert(!"https://"@.is_prefix_of(url)) by {
            if "https://"@.is_prefix_of(url) {
                assert(url.subrange(0, 8)[4] == url[4]);
            }
        }
    }
}

proof fn lemma_last(host: Seq<char>)
    ensures
        match cut_last(host, ".s3."@) {
            Some((bucket, endpoint)) => {
                &&& s3_at(host, bucket.len() as int)
                &&& bucket == host.take(bucket.len() as int)
                &&& endpoint == host.skip(bucket.len() as int + 4)
                &&& forall|j: int| bucket.len() < j ==> !#[trigger] s3_at(host, j)
            },
            None => forall|j: int| !#[trigger] s3_at(host, j),
        },
{
    reveal_strlit(".s3.");
    let mark = ".s3."@;
    assert(mark.len() == 4);
    law_cut_last(host, mark);
    match cut_last(host, mark) {
        Some((bucket, endpoint)) => {
            let n = bucket.len() as int;
            assert(host.subrange(n, n + 4) =~= mark);
            assert(bucket =~= host.take(n));
            assert(endpoint =~= host.skip(n + 4));
            assert forall|j: int| n < j implies !#[trigger] s3_at(host, j) by {
                if s3_at(host, j) {
                    assert(host.subrange(j, j + mark.len()) == mark);
                }
            }
        },
        None => {
            assert forall|j: int| !#[trigger] s3_at(host, j) by {
                if s3_at(host, j) {
                    assert(host.subrange(j, j + mark.len()) == mark);
                }
            }
        },
    }
}

proof fn lemma_bare(host: Seq<char>)
    ensures
        bare_endpoint(host) == if is_path_host(host) {
            Some(host.skip(3))
        } else {
            None
        },
{
    reveal_strlit("s3.");
    reveal_strlit("s3");
    reveal_strlit(".s3.");
    lemma_last(host);
    law_after_head(host, "s3."@, host);
    assert("s3."@[0] == 's' && "s3."@[1] == '3' && "s3."@[2] == '.');
    assert(".s3."@[0] == '.');
    assert("s3."@.len() == 3 && "s3"@.len() == 2);
    if "s3."@.is_prefix_of(host) {
        assert(host.subrange(0, 3) =~= "s3."@);
        assert(host[0] == host.subrange(0, 3)[0] && host[1] == host.subrange(0, 3)[1]);
        if let Some((bucket, endpoint)) = cut_last(host, ".s3."@) {
            let n = bucket.len() as int;
            assert(host.subrange(n, n + 4)[0] == host[n]);
            assert(n >= 2);
            if n == 2 {
                assert(bucket =~= "s3"@);
                assert(is_path_host(host));
            } else {
                assert(s3_at(host, n));
                assert(!is_path_host(host));
            }
        }
    } else if let Some((bucket, endpoint)) = cut_last(host, ".s3."@) {
        if bucket == "s3"@ {
            let n = bucket.len() as int;
            assert(host.subrange(n, n + 4)[0] == host[n]);
            assert(host[0] == bucket[0] && host[1] == bucket[1]);
            assert(host.subrange(0, 3) =~= "s3."@);
        }
    }
}

/// A URL in path style: the host names the endpoint, and the path the bucket and, behind a slash, the
/// key.
pub proof fn law_path_url_is_read(
    opts: Json,
    answer: Result<Json, String>,
    scheme: Seq<char>,
    host: Seq<char>,
    slash: bool,
    bucket: Seq<char>,
    inner: bool,
    key: Seq<char>,
)
    requires
        call_ensures(op_parse_s3_url, (opts,), answer),
        scheme == "https://"@ || scheme == "http://"@,
        !host.contains('/'),
        !bucket.contains('/'),
        is_path_host(host),
        !inner ==> key.len() == 0,
        !slash ==> bucket.len() == 0 && !inner,
        opts@.text_field("url"@) == Some(scheme + slashed(host, slash, slashed(bucket, inner, key))),
    ensures
        ({
            let url = opts@.text_field("url"@).unwrap();
            let endpoint = host.skip(3);
            match endpoint_parts(endpoint) {
                None => refused(answer, "unrecognized S3 endpoint host `"@ + endpoint + "`"@),
                Some((region, suffix)) => if bucket.len() == 0 {
                    refused(answer, "path-style S3 URL has no bucket: `"@ + url + "`"@)
                } else {
                    answer matches Ok(said) && reads(
                        said@,
                        url,
                        "path"@,
                        host,
                        bucket,
                        region,
                        suffix,
                        key,
                    )
                },
            }
        }),
{
    reveal_strlit("");
    let path = slashed(bucket, inner, key);
    law_scheme(scheme, slashed(host, slash, path));
    lemma_slashed(host, slash, path);
    lemma_slashed(bucket, inner, key);
    lemma_bare(host);
    if !slash {
        assert(path =~= ""@);
        assert(bucket =~= path);
    }
}

/// A URL in virtual-hosted style: what stands before the last `.s3.` of the host is the bucket, what
/// stands behind it is the endpoint, and the path is the key.
pub proof fn law_hosted_url_is_read(
    opts: Json,
    answer: Result<Json, String>,
    scheme: Seq<char>,
    host: Seq<char>,
    slash: bool,
    path: Seq<char>,
    at: int,
)
    requires
        call_ensures(op_parse_s3_url, (opts,), answer),
        scheme == "https://"@ || scheme == "http://"@,
        !host.contains('/'),
        !is_path_host(host),
        s3_at(host, at),
        forall|j: int| at < j ==> !#[trigger] s3_at(host, j),
        !slash ==> path.len() == 0,
        opts@.text_field("url"@) == Some(scheme + slashed(host, slash, path)),
    ensures
        ({
            let url = opts@.text_field("url"@).unwrap();
            let bucket = host.take(at);
            let endpoint = host.skip(at + 4);
            if bucket.len() == 0 {
                refused(answer, "virtual-hosted S3 URL has no bucket: `"@ + url + "`"@)
            } else {
                match endpoint_parts(endpoint) {
                    None => refused(answer, "unrecognized S3 endpoint host `"@ + endpoint + "`"@),
                    Some((region, suffix)) => answer matches Ok(said) && reads(
                        said@,
                        url,
                        "virtual-hosted"@,
                        host,
                        bucket,
                        region,
                        suffix,
                        path,
                    ),
                }
            }
        }),
{
    reveal_strlit("");
    law_scheme(scheme, slashed(host, slash, path));
    lemma_slashed(host, slash, path);
    lemma_bare(host);
    lemma_last(host);
    if let Some((bucket, endpoint)) = cut_last(host, ".s3."@) {
        let n = bucket.len() as int;
        assert(s3_at(host, n));
        assert(n == at);
    }
    if !slash {
        assert(path =~= ""@);
    }
}

/// A host in which `.s3.` does not stand, and which is not one of path style, is not one of S3.
pub proof fn law_no_url_of_s3(
    opts: Json,
    answer: Result<Json, String>,
    scheme: Seq<char>,
    host: Seq<char>,
    slash: bool,
    path: Seq<char>,
)
    requires
        call_ensures(op_parse_s3_url, (opts,), answer),
        scheme == "https://"@ || scheme == "http://"@,
        !host.contains('/'),
        !is_path_host(host),
        forall|j: int| !#[trigger] s3_at(host, j),
        !slash ==> path.len() == 0,
        opts@.text_field("url"@) == Some(scheme + slashed(host, slash, path)),
    ensures
        refused(answer, "not an S3 URL host `"@ + host + "`"@),
{
    law_scheme(scheme, slashed(host, slash, path));
    lemma_slashed(host, slash, path);
    lemma_bare(host);
    lemma_last(host);
}

}
