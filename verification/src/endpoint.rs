//! Endpoints of services: `<service>.<region>.<dns_suffix>`.
use vstd::prelude::*;
use vstd::string::*;

use crate::json::outcome;
use crate::json::put;
use crate::json::Json;
use crate::json::JsonView;
use crate::region::dns_suffix;
use crate::region::dns_suffix_of;
use crate::region::partition;
use crate::region::partition_of;
use crate::split::cut_either;
use crate::split::lacks;
use crate::split::lemma_cut_back;
use crate::split::lemma_either_here;
use crate::split::lemma_no_cut_either;
use crate::split::split_either;
use crate::text::after_head;
use crate::text::before_tail;
use crate::text::cut;
use crate::text::split_once;
use crate::text::strip_prefix;
use crate::text::strip_suffix;
use crate::text::trim_end;
use crate::text::without_trailing;
use crate::uri::filled;
use crate::uri::unless_empty;

verus! {

/// The head of an endpoint that ends in the domain `suffix`, if it does, and that domain.
pub open spec fn peeled(endpoint: Seq<char>, suffix: Seq<char>) -> Option<(Seq<char>, Seq<char>)> {
    match before_tail(endpoint, suffix) {
        Some(head) => Some((without_trailing(head, '.'), suffix)),
        None => None,
    }
}

/// `<region>.<dns_suffix>` as region and domain, for the domains that are known. The region may be
/// missing.
pub open spec fn endpoint_parts(endpoint: Seq<char>) -> Option<(Seq<char>, Seq<char>)> {
    if "amazonaws.com.cn"@.is_suffix_of(endpoint) {
        peeled(endpoint, "amazonaws.com.cn"@)
    } else if "sc2s.sgov.gov"@.is_suffix_of(endpoint) {
        peeled(endpoint, "sc2s.sgov.gov"@)
    } else if "c2s.ic.gov"@.is_suffix_of(endpoint) {
        peeled(endpoint, "c2s.ic.gov"@)
    } else {
        peeled(endpoint, "amazonaws.com"@)
    }
}

/// What is answered of an endpoint, part by part and as a whole.
pub open spec fn endpoint_json(
    service: Seq<char>,
    region: Seq<char>,
    suffix: Seq<char>,
) -> JsonView {
    let endpoint = service + "."@ + region + "."@ + suffix;
    JsonView::Object(
        map![
            "service"@ => JsonView::Text(service),
            "region"@ => JsonView::Text(region),
            "partition"@ => JsonView::Text(partition(region)),
            "dns_suffix"@ => JsonView::Text(suffix),
            "endpoint"@ => JsonView::Text(endpoint),
            "url"@ => JsonView::Text("https://"@ + endpoint),
        ],
    )
}

/// What `op_service_endpoint` answers.
pub open spec fn service_endpoint(opts: JsonView) -> Result<JsonView, Seq<char>> {
    match (
        unless_empty(opts.text_field("service"@)),
        unless_empty(opts.text_field("region"@)),
    ) {
        (None, _) => Err("missing service"@),
        (Some(_), None) => Err("missing region"@),
        (Some(service), Some(region)) => match dns_suffix(partition(region)) {
            None => Err("no DNS suffix for partition `"@ + partition(region) + "`"@),
            Some(suffix) => Ok(endpoint_json(service, region, suffix)),
        },
    }
}

/// The host in a host or a URL: without the scheme, and without the path and the query.
pub open spec fn host_in(raw: Seq<char>) -> Seq<char> {
    let rest = match after_head(raw, "https://"@) {
        Some(rest) => rest,
        None => after_head(raw, "http://"@).unwrap_or(raw),
    };
    match cut_either(rest, '/', '?') {
        Some((host, _)) => host,
        None => rest,
    }
}

/// What `op_parse_service_endpoint` answers.
pub open spec fn parse_service_endpoint(opts: JsonView) -> Result<JsonView, Seq<char>> {
    match opts.text_field_or("endpoint"@, "url"@) {
        None => Err("missing endpoint"@),
        Some(raw) => {
            let host = host_in(raw);
            match cut(host, "."@) {
                None => Err("not a service endpoint host `"@ + host + "`"@),
                Some((service, rest)) => if service.len() == 0 {
                    Err("service endpoint has no service: `"@ + host + "`"@)
                } else {
                    match endpoint_parts(rest) {
                        None => Err("unrecognized service endpoint host `"@ + host + "`"@),
                        Some((region, suffix)) => if region.len() == 0 {
                            Err("service endpoint has no region: `"@ + host + "`"@)
                        } else {
                            Ok(endpoint_json(service, region, suffix))
                        },
                    }
                },
            }
        },
    }
}

proof fn lemma_endpoint_names()
    ensures
        "endpoint"@.len() == 8,
        "service"@.len() == 7,
        "region"@.len() == 6,
        "partition"@.len() == 9,
        "dns_suffix"@.len() == 10,
        "url"@.len() == 3,
{
    reveal_strlit("endpoint");
    reveal_strlit("service");
    reveal_strlit("region");
    reveal_strlit("partition");
    reveal_strlit("dns_suffix");
    reveal_strlit("url");
}

/// The domains that are known, spelled out where they end.
proof fn lemma_domains()
    ensures
        "amazonaws.com"@.len() == 13,
        "amazonaws.com"@[12] == 'm',
        "amazonaws.com.cn"@.len() == 16,
        "amazonaws.com.cn"@[15] == 'n',
        "c2s.ic.gov"@.len() == 10,
        "c2s.ic.gov"@[9] == 'v',
        "c2s.ic.gov"@[5] == 'c',
        "sc2s.sgov.gov"@.len() == 13,
        "sc2s.sgov.gov"@[12] == 'v',
        "sc2s.sgov.gov"@[8] == 'v',
        lacks("amazonaws.com"@, '/') && lacks("amazonaws.com"@, '?') && lacks("amazonaws.com"@, '3'),
        lacks("amazonaws.com.cn"@, '/') && lacks("amazonaws.com.cn"@, '?') && lacks("amazonaws.com.cn"@, '3'),
        lacks("c2s.ic.gov"@, '/') && lacks("c2s.ic.gov"@, '?') && lacks("c2s.ic.gov"@, '3'),
        lacks("sc2s.sgov.gov"@, '/') && lacks("sc2s.sgov.gov"@, '?') && lacks("sc2s.sgov.gov"@, '3'),
{
    reveal_strlit("amazonaws.com");
    reveal_strlit("amazonaws.com.cn");
    reveal_strlit("c2s.ic.gov");
    reveal_strlit("sc2s.sgov.gov");
}

/// Two texts that one text ends in agree from their ends on.
proof fn lemma_same_end(text: Seq<char>, a: Seq<char>, b: Seq<char>, k: int)
    requires
        a.is_suffix_of(text),
        b.is_suffix_of(text),
        0 < k <= a.len(),
        k <= b.len(),
    ensures
        a[a.len() - k] == b[b.len() - k],
{
    assert(a[a.len() - k] == text[text.len() - k]);
    assert(b[b.len() - k] == text[text.len() - k]);
}

/// A region and its domain, put together, are taken apart again.
pub proof fn lemma_endpoint_parts(region: Seq<char>, suffix: Seq<char>)
    requires
        region.len() > 0,
        region.last() != '.',
        dns_suffix(partition(region)) == Some(suffix),
    ensures
        endpoint_parts(region + "."@ + suffix) == Some((region, suffix)),
        lacks(suffix, '/'),
        lacks(suffix, '?'),
        lacks(suffix, '3'),
{
    reveal_strlit(".");
    assert("."@ =~= seq!['.']);
    lemma_domains();
    let text = region + "."@ + suffix;
    assert(text.subrange(text.len() - suffix.len(), text.len() as int) =~= suffix);
    assert(suffix.is_suffix_of(text));
    let cn = "amazonaws.com.cn"@;
    let isob = "sc2s.sgov.gov"@;
    let iso = "c2s.ic.gov"@;
    if suffix != cn && cn.is_suffix_of(text) {
        lemma_same_end(text, cn, suffix, 1);
    }
    if suffix != isob && isob.is_suffix_of(text) {
        lemma_same_end(text, isob, suffix, 1);
        lemma_same_end(text, isob, suffix, 5);
    }
    if suffix != iso && iso.is_suffix_of(text) {
        lemma_same_end(text, iso, suffix, 1);
        if suffix == isob {
            lemma_same_end(text, iso, suffix, 5);
        }
    }
    let head = region + "."@;
    assert(text.take(text.len() - suffix.len()) =~= head);
    assert(head.drop_last() =~= region);
    assert(without_trailing(head, '.') == without_trailing(region, '.'));
}

/// What may follow a host: nothing, or a path or a query.
pub open spec fn is_tail(tail: Seq<char>) -> bool {
    tail.len() == 0 || tail[0] == '/' || tail[0] == '?'
}

/// A host is cut off what follows it.
proof fn lemma_host_and_tail(host: Seq<char>, tail: Seq<char>)
    requires
        lacks(host, '/'),
        lacks(host, '?'),
        is_tail(tail),
    ensures
        match cut_either(host + tail, '/', '?') {
            Some((head, _)) => head == host,
            None => host + tail == host,
        },
{
    if tail.len() == 0 {
        assert(host + tail =~= host);
        lemma_no_cut_either(host, '/', '?');
    } else {
        assert(host + tail =~= host + seq![tail[0]] + tail.skip(1));
        lemma_either_here(host + tail, host, tail.skip(1), tail[0], '/', '?');
    }
}

/// A host is found on its own and in a URL, whatever follows it.
proof fn lemma_host_found(host: Seq<char>, tail: Seq<char>)
    requires
        lacks(host, '/'),
        lacks(host, '?'),
        host.len() >= 8,
        is_tail(tail),
    ensures
        host_in(host + tail) == host,
        host_in("https://"@ + host + tail) == host,
        host_in("http://"@ + host + tail) == host,
{
    reveal_strlit("https://");
    reveal_strlit("http://");
    assert("https://"@[6] == '/' && "http://"@[5] == '/' && "https://"@[4] == 's');
    let bare = host + tail;
    assert(after_head(bare, "https://"@) is None) by {
        if "https://"@.is_prefix_of(bare) {
            assert(bare[6] == "https://"@[6]);
            assert(bare[6] == host[6]);
        }
    }
    assert(after_head(bare, "http://"@) is None) by {
        if "http://"@.is_prefix_of(bare) {
            assert(bare[5] == "http://"@[5]);
            assert(bare[5] == host[5]);
        }
    }
    lemma_host_and_tail(host, tail);
    let safe = "https://"@ + host + tail;
    assert(safe.subrange(0, 8) =~= "https://"@);
    assert(safe.skip(8) =~= bare);
    let plain = "http://"@ + host + tail;
    assert(plain.subrange(0, 7) =~= "http://"@);
    assert(plain.skip(7) =~= bare);
    assert(after_head(plain, "https://"@) is None) by {
        if "https://"@.is_prefix_of(plain) {
            assert(plain[4] == "https://"@[4]);
            assert(plain[4] == "http://"@[4]);
        }
    }
}

/// The parts of an endpoint are read off any text in which it is found.
proof fn lemma_parts_read(
    opts: JsonView,
    raw: Seq<char>,
    service: Seq<char>,
    region: Seq<char>,
    suffix: Seq<char>,
)
    requires
        opts.text_field_or("endpoint"@, "url"@) == Some(raw),
        host_in(raw) == service + "."@ + region + "."@ + suffix,
        service.len() > 0,
        lacks(service, '.'),
        region.len() > 0,
        endpoint_parts(region + "."@ + suffix) == Some((region, suffix)),
    ensures
        parse_service_endpoint(opts) == Ok::<JsonView, Seq<char>>(
            endpoint_json(service, region, suffix),
        ),
{
    reveal_strlit(".");
    assert("."@ =~= seq!['.']);
    let rest = region + "."@ + suffix;
    assert(host_in(raw) =~= service + seq!['.'] + rest);
    lemma_cut_back(service, '.', rest);
}

/// `parse_service_endpoint` undoes `service_endpoint`, for the endpoint and for its URL, of either
/// scheme, and whatever path or query follows: every part comes back. The service is one label of a
/// host, and the region is a part of one that does not end in a dot.
pub proof fn law_parse_undoes_service_endpoint(opts: JsonView, tail: Seq<char>)
    requires
        service_endpoint(opts) is Ok,
        lacks(opts.text_field("service"@).unwrap(), '.'),
        lacks(opts.text_field("service"@).unwrap(), '/'),
        lacks(opts.text_field("service"@).unwrap(), '?'),
        lacks(opts.text_field("region"@).unwrap(), '/'),
        lacks(opts.text_field("region"@).unwrap(), '?'),
        opts.text_field("region"@).unwrap().last() != '.',
        is_tail(tail),
    ensures
        ({
            let built = service_endpoint(opts)->Ok_0;
            let endpoint = built.text_field("endpoint"@).unwrap();
            let url = built.text_field("url"@).unwrap();
            &&& url == "https://"@ + endpoint
            &&& parse_service_endpoint(
                JsonView::Object(map!["endpoint"@ => JsonView::Text(endpoint + tail)]),
            ) == service_endpoint(opts)
            &&& parse_service_endpoint(
                JsonView::Object(map!["url"@ => JsonView::Text(url + tail)]),
            ) == service_endpoint(opts)
            &&& parse_service_endpoint(
                JsonView::Object(map!["url"@ => JsonView::Text("http://"@ + endpoint + tail)]),
            ) == service_endpoint(opts)
        }),
{
    lemma_endpoint_names();
    lemma_domains();
    let service = opts.text_field("service"@).unwrap();
    let region = opts.text_field("region"@).unwrap();
    let suffix = dns_suffix(partition(region)).unwrap();
    let built = service_endpoint(opts)->Ok_0;
    let endpoint = service + "."@ + region + "."@ + suffix;
    lemma_endpoint_parts(region, suffix);
    lemma_lacks_all(service, region, suffix, '/');
    lemma_lacks_all(service, region, suffix, '?');
    lemma_host_found(endpoint, tail);
    assert(built.text_field("endpoint"@) == Some(endpoint));
    assert(built.text_field("url"@) == Some("https://"@ + endpoint));
    let by_host = JsonView::Object(map!["endpoint"@ => JsonView::Text(endpoint + tail)]);
    let by_url = JsonView::Object(map!["url"@ => JsonView::Text("https://"@ + endpoint + tail)]);
    let by_plain = JsonView::Object(map!["url"@ => JsonView::Text("http://"@ + endpoint + tail)]);
    assert(by_host.text_field_or("endpoint"@, "url"@) == Some(endpoint + tail));
    assert(by_url.text_field_or("endpoint"@, "url"@) == Some("https://"@ + endpoint + tail));
    assert(by_plain.text_field_or("endpoint"@, "url"@) == Some("http://"@ + endpoint + tail));
    lemma_parts_read(by_host, endpoint + tail, service, region, suffix);
    lemma_parts_read(by_url, "https://"@ + endpoint + tail, service, region, suffix);
    lemma_parts_read(by_plain, "http://"@ + endpoint + tail, service, region, suffix);
}

/// A character that stands in none of the parts of an endpoint, nor is a dot, does not stand in it.
proof fn lemma_lacks_all(service: Seq<char>, region: Seq<char>, suffix: Seq<char>, c: char)
    requires
        lacks(service, c),
        lacks(region, c),
        lacks(suffix, c),
        c != '.',
    ensures
        lacks(service + "."@ + region + "."@ + suffix, c),
{
    reveal_strlit(".");
    let a = service + "."@;
    let b = a + region;
    let d = b + "."@;
    assert forall|i: int| 0 <= i < (d + suffix).len() implies #[trigger] (d + suffix)[i] != c by {
        if i < service.len() {
            assert((d + suffix)[i] == service[i]);
        } else if i == service.len() {
            assert((d + suffix)[i] == '.');
        } else if i < b.len() {
            assert((d + suffix)[i] == region[i - a.len()]);
        } else if i == b.len() {
            assert((d + suffix)[i] == '.');
        } else {
            assert((d + suffix)[i] == suffix[i - d.len()]);
        }
    }
}

/// `service_endpoint` undoes `parse_service_endpoint`, where the domain is that of the region's
/// partition.
pub proof fn law_service_endpoint_undoes_parse(opts: JsonView)
    requires
        parse_service_endpoint(opts) is Ok,
        parse_service_endpoint(opts)->Ok_0.text_field("dns_suffix"@) == dns_suffix(
            partition(parse_service_endpoint(opts)->Ok_0.text_field("region"@).unwrap()),
        ),
    ensures
        service_endpoint(parse_service_endpoint(opts)->Ok_0) == parse_service_endpoint(opts),
{
    lemma_endpoint_names();
    let said = parse_service_endpoint(opts)->Ok_0;
    let raw = opts.text_field_or("endpoint"@, "url"@).unwrap();
    let (service, rest) = cut(host_in(raw), "."@).unwrap();
    let (region, suffix) = endpoint_parts(rest).unwrap();
    assert(said.text_field("service"@) == Some(service));
    assert(said.text_field("region"@) == Some(region));
    assert(said.text_field("dns_suffix"@) == Some(suffix));
    assert(service_endpoint(said)->Ok_0->Object_0 =~= said->Object_0);
}

/// Splits `<region>.<dns_suffix>` into region and domain. The region is empty where it is missing;
/// any other domain than those that are known is an error.
pub fn split_s3_endpoint(ep: &str) -> (parts: Result<(String, &'static str), String>)
    ensures
        match parts {
            Ok((region, suffix)) => endpoint_parts(ep@) == Some((region@, suffix@)),
            Err(message) => endpoint_parts(ep@) is None && message@
                == "unrecognized S3 endpoint host `"@ + ep@ + "`"@,
        },
{
    proof {
        reveal_strlit(".");
    }
    if let Some(head) = strip_suffix(ep, "amazonaws.com.cn") {
        return Ok((trim_end(head, ".").to_owned(), "amazonaws.com.cn"));
    }
    if let Some(head) = strip_suffix(ep, "sc2s.sgov.gov") {
        return Ok((trim_end(head, ".").to_owned(), "sc2s.sgov.gov"));
    }
    if let Some(head) = strip_suffix(ep, "c2s.ic.gov") {
        return Ok((trim_end(head, ".").to_owned(), "c2s.ic.gov"));
    }
    if let Some(head) = strip_suffix(ep, "amazonaws.com") {
        return Ok((trim_end(head, ".").to_owned(), "amazonaws.com"));
    }
    Err("unrecognized S3 endpoint host `".to_owned().concat(ep).concat("`"))
}

/// Shows an endpoint.
fn show_endpoint(service: &str, region: &str, suffix: &str) -> (json: Json)
    ensures
        json@ == endpoint_json(service@, region@, suffix@),
{
    let endpoint = service.to_owned().concat(".").concat(region).concat(".").concat(suffix);
    let url = "https://".to_owned().concat(endpoint.as_str());
    let mut out: Vec<(String, Json)> = Vec::new();
    put(&mut out, "service", Json::text(service));
    put(&mut out, "region", Json::text(region));
    put(&mut out, "partition", Json::text(partition_of(region)));
    put(&mut out, "dns_suffix", Json::text(suffix));
    put(&mut out, "endpoint", Json::Text(endpoint));
    put(&mut out, "url", Json::Text(url));
    Json::Object(out)
}

/// Builds the endpoint of `service` in `region`.
pub fn op_service_endpoint(opts: Json) -> (answer: Result<Json, String>)
    ensures
        outcome(answer) == service_endpoint(opts@),
{
    let service = match filled(opts.text_at("service")) {
        Some(service) => service,
        None => return Err("missing service".to_owned()),
    };
    let region = match filled(opts.text_at("region")) {
        Some(region) => region,
        None => return Err("missing region".to_owned()),
    };
    let partition = partition_of(region);
    let suffix = match dns_suffix_of(partition) {
        Some(suffix) => suffix,
        None => return Err(
            "no DNS suffix for partition `".to_owned().concat(partition).concat("`"),
        ),
    };
    Ok(show_endpoint(service, region, suffix))
}

/// The host in a host or a URL.
fn host_part<'a>(raw: &'a str) -> (host: &'a str)
    ensures
        host@ == host_in(raw@),
{
    let rest = match strip_prefix(raw, "https://") {
        Some(rest) => rest,
        None => match strip_prefix(raw, "http://") {
            Some(rest) => rest,
            None => raw,
        },
    };
    proof {
        reveal_strlit("/");
        reveal_strlit("?");
    }
    match split_either(rest, "/", "?") {
        Some((host, _)) => host,
        None => rest,
    }
}

/// Takes an endpoint, given as host or URL in `endpoint` (or `url`), apart.
pub fn op_parse_service_endpoint(opts: Json) -> (answer: Result<Json, String>)
    ensures
        outcome(answer) == parse_service_endpoint(opts@),
{
    let raw = match opts.text_at_either("endpoint", "url") {
        Some(raw) => raw,
        None => return Err("missing endpoint".to_owned()),
    };
    let host = host_part(raw);
    proof {
        reveal_strlit(".");
    }
    let (service, rest) = match split_once(host, ".") {
        Some(halves) => halves,
        None => return Err("not a service endpoint host `".to_owned().concat(host).concat("`")),
    };
    if service.is_empty() {
        return Err("service endpoint has no service: `".to_owned().concat(host).concat("`"));
    }
    let (region, suffix) = match split_s3_endpoint(rest) {
        Ok(parts) => parts,
        Err(_) => return Err(
            "unrecognized service endpoint host `".to_owned().concat(host).concat("`"),
        ),
    };
    if region.as_str().is_empty() {
        return Err("service endpoint has no region: `".to_owned().concat(host).concat("`"));
    }
    Ok(show_endpoint(service, region.as_str(), suffix))
}

}
