//! Laws on regions, partitions, domains, zones and the endpoints of services.
use vstd::prelude::*;
use vstd::string::*;

use crate::endpoint::endpoint_parts;
use crate::endpoint::host_in;
use crate::endpoint::parse_service_endpoint;
use crate::endpoint::service_endpoint;
use crate::json::JsonView;
use crate::laws::strings::law_cut_either;
use crate::laws::strings::law_without_trailing;
use crate::region::dns_suffix;
use crate::region::dns_suffix_for_partition;
use crate::region::is_area;
use crate::region::is_geography;
use crate::region::is_number;
use crate::region::law_china_region;
use crate::region::law_government_region;
use crate::region::law_standard_region;
use crate::region::partition;
use crate::region::partition_for_region;
use crate::region::region_fault;
use crate::region::region_for_az;
use crate::region::valid_region;
use crate::split::cut_either;
use crate::split::lemma_cut_back;
use crate::text::after_head;
use crate::validate::in_class;
use crate::validate::Class;

verus! {

proof fn lemma_heads()
    ensures
        "cn-"@ == seq!['c', 'n', '-'],
        "us-gov-"@ == seq!['u', 's', '-', 'g', 'o', 'v', '-'],
        "us-iso-"@ == seq!['u', 's', '-', 'i', 's', 'o', '-'],
        "us-isob-"@ == seq!['u', 's', '-', 'i', 's', 'o', 'b', '-'],
        "-"@ == seq!['-'],
{
    reveal_strlit("cn-");
    reveal_strlit("us-gov-");
    reveal_strlit("us-iso-");
    reveal_strlit("us-isob-");
    reveal_strlit("-");
    assert("cn-"@ =~= seq!['c', 'n', '-']);
    assert("us-gov-"@ =~= seq!['u', 's', '-', 'g', 'o', 'v', '-']);
    assert("us-iso-"@ =~= seq!['u', 's', '-', 'i', 's', 'o', '-']);
    assert("us-isob-"@ =~= seq!['u', 's', '-', 'i', 's', 'o', 'b', '-']);
    assert("-"@ =~= seq!['-']);
}

proof fn lemma_head(text: Seq<char>, head: Seq<char>)
    ensures
        head.is_prefix_of(head + text),
        head.is_prefix_of(text) <==> head.len() <= text.len() && forall|i: int|
            0 <= i < head.len() ==> #[trigger] text[i] == head[i],
{
    assert((head + text).subrange(0, head.len() as int) =~= head);
    if head.len() <= text.len() {
        if forall|i: int| 0 <= i < head.len() ==> #[trigger] text[i] == head[i] {
            assert(text.subrange(0, head.len() as int) =~= head);
        }
        if head.is_prefix_of(text) {
            assert forall|i: int| 0 <= i < head.len() implies #[trigger] text[i] == head[i] by {
                assert(text.subrange(0, head.len() as int)[i] == text[i]);
            }
        }
    }
}

/// The partition of a region: `aws-cn` behind `cn-`, `aws-us-gov` behind `us-gov-`, `aws-iso` behind
/// `us-iso-`, `aws-iso-b` behind `us-isob-`, and `aws` for every other text.
pub proof fn law_partition(rest: Seq<char>, region: Seq<char>)
    ensures
        partition("cn-"@ + rest) == "aws-cn"@,
        partition("us-gov-"@ + rest) == "aws-us-gov"@,
        partition("us-iso-"@ + rest) == "aws-iso"@,
        partition("us-isob-"@ + rest) == "aws-iso-b"@,
        !"cn-"@.is_prefix_of(region) && !"us-gov-"@.is_prefix_of(region) && !"us-iso-"@.is_prefix_of(
            region,
        ) && !"us-isob-"@.is_prefix_of(region) ==> partition(region) == "aws"@,
{
    lemma_heads();
    let (cn, gov, iso, isob) = (
        "cn-"@ + rest,
        "us-gov-"@ + rest,
        "us-iso-"@ + rest,
        "us-isob-"@ + rest,
    );
    lemma_head(rest, "cn-"@);
    lemma_head(rest, "us-gov-"@);
    lemma_head(rest, "us-iso-"@);
    lemma_head(rest, "us-isob-"@);
    assert(gov[0] == 'u' && iso[0] == 'u' && isob[0] == 'u');
    lemma_head(gov, "cn-"@);
    lemma_head(iso, "cn-"@);
    lemma_head(isob, "cn-"@);
    assert(iso[3] == 'i' && isob[3] == 'i');
    lemma_head(iso, "us-gov-"@);
    lemma_head(isob, "us-gov-"@);
    assert(iso[6] == '-');
    lemma_head(iso, "us-isob-"@);
}

/// The domains of the five partitions; no other partition has one.
pub proof fn law_domains(name: Seq<char>)
    ensures
        dns_suffix("aws"@) == Some("amazonaws.com"@),
        dns_suffix("aws-cn"@) == Some("amazonaws.com.cn"@),
        dns_suffix("aws-us-gov"@) == Some("amazonaws.com"@),
        dns_suffix("aws-iso"@) == Some("c2s.ic.gov"@),
        dns_suffix("aws-iso-b"@) == Some("sc2s.sgov.gov"@),
        name != "aws"@ && name != "aws-cn"@ && name != "aws-us-gov"@ && name != "aws-iso"@ && name
            != "aws-iso-b"@ ==> dns_suffix(name) is None,
{
    reveal_strlit("aws");
    reveal_strlit("aws-cn");
    reveal_strlit("aws-us-gov");
    reveal_strlit("aws-iso");
    reveal_strlit("aws-iso-b");
    assert("aws"@.len() == 3 && "aws-cn"@.len() == 6 && "aws-us-gov"@.len() == 10
        && "aws-iso"@.len() == 7 && "aws-iso-b"@.len() == 9);
}

proof fn lemma_names()
    ensures
        "region"@.len() == 6,
        "reason"@.len() == 6,
        "region"@ != "reason"@,
        "partition"@.len() == 9,
        "dns_suffix"@.len() == 10,
        "valid"@.len() == 5,
        "az"@.len() == 2,
        "zone_letter"@.len() == 11,
        "service"@.len() == 7,
        "endpoint"@.len() == 8,
        "url"@.len() == 3,
{
    reveal_strlit("region");
    reveal_strlit("reason");
    reveal_strlit("partition");
    reveal_strlit("dns_suffix");
    reveal_strlit("valid");
    reveal_strlit("az");
    reveal_strlit("zone_letter");
    reveal_strlit("service");
    reveal_strlit("endpoint");
    reveal_strlit("url");
    assert("region"@[2] == 'g' && "reason"@[2] == 'a');
}

/// What is answered of a region's partition and of a partition's domain.
pub proof fn law_partition_is_answered(opts: JsonView)
    ensures
        match opts.text_field("region"@) {
            None => partition_for_region(opts) == Err::<JsonView, Seq<char>>("missing region"@),
            Some(region) => partition_for_region(opts) == Ok::<JsonView, Seq<char>>(
                JsonView::Object(
                    map![
                        "region"@ => JsonView::Text(region),
                        "partition"@ => JsonView::Text(partition(region)),
                    ],
                ),
            ),
        },
        match opts.text_field("partition"@) {
            None => dns_suffix_for_partition(opts) == Err::<JsonView, Seq<char>>(
                "missing partition"@,
            ),
            Some(name) => match dns_suffix(name) {
                None => dns_suffix_for_partition(opts) == Err::<JsonView, Seq<char>>(
                    "unknown partition `"@ + name + "`"@,
                ),
                Some(suffix) => dns_suffix_for_partition(opts) == Ok::<JsonView, Seq<char>>(
                    JsonView::Object(
                        map![
                            "partition"@ => JsonView::Text(name),
                            "dns_suffix"@ => JsonView::Text(suffix),
                        ],
                    ),
                ),
            },
        },
{
}

/// An area: one or more letters, digits and underscores.
pub open spec fn area_text(text: Seq<char>) -> bool {
    text.len() > 0 && forall|i: int|
        0 <= i < text.len() ==> ({
            let n = #[trigger] text[i] as int;
            65 <= n <= 90 || 97 <= n <= 122 || 48 <= n <= 57 || n == 95
        })
}

/// A number: one or more digits.
pub open spec fn number_text(text: Seq<char>) -> bool {
    text.len() > 0 && forall|i: int| 0 <= i < text.len() ==> 48 <= #[trigger] text[i] as int <= 57
}

proof fn lemma_classes(text: Seq<char>)
    ensures
        is_area(text) <==> area_text(text),
        is_number(text) <==> number_text(text),
{
    assert(forall|c: char| #[trigger] in_class(c, Class::Word) <==> {
        let n = c as int;
        65 <= n <= 90 || 97 <= n <= 122 || 48 <= n <= 57 || n == 95
    });
    assert(forall|c: char| #[trigger] in_class(c, Class::Digit) <==> 48 <= c as int <= 57);
    if is_area(text) {
        assert forall|i: int| 0 <= i < text.len() implies ({
            let n = #[trigger] text[i] as int;
            65 <= n <= 90 || 97 <= n <= 122 || 48 <= n <= 57 || n == 95
        }) by {
            assert(in_class(text[i], Class::Word));
        }
    }
    if is_number(text) {
        assert forall|i: int| 0 <= i < text.len() implies 48 <= #[trigger] text[i] as int <= 57 by {
            assert(in_class(text[i], Class::Digit));
        }
    }
}

/// One of the nine geographies.
pub open spec fn one_of_nine(geo: Seq<char>) -> bool {
    ||| geo == "us"@ || geo == "eu"@ || geo == "ap"@ || geo == "sa"@ || geo == "ca"@
    ||| geo == "me"@ || geo == "af"@ || geo == "il"@ || geo == "mx"@
}

/// In the partition `aws` a geography, an area and a number make the name of a region, for each of
/// the nine geographies: us, eu, ap, sa, ca, me, af, il and mx. Any other geography is unknown.
pub proof fn law_standard_names(geo: Seq<char>, area: Seq<char>, number: Seq<char>)
    requires
        area_text(area),
        number_text(number),
        !geo.contains('-'),
        partition(geo + seq!['-'] + area + seq!['-'] + number) == "aws"@,
    ensures
        region_fault(geo + seq!['-'] + area + seq!['-'] + number) == if one_of_nine(geo) {
            None
        } else {
            Some("unknown geography `"@ + geo + "` (us|eu|ap|sa|ca|me|af|il|mx)"@)
        },
{
    lemma_heads();
    lemma_classes(area);
    lemma_classes(number);
    let region = geo + "-"@ + area + "-"@ + number;
    assert(region == geo + seq!['-'] + area + seq!['-'] + number);
    crate::region::lemma_name_fields(geo, area, number);
    law_domains(geo);
    reveal_strlit("aws");
    reveal_strlit("aws-cn");
    reveal_strlit("aws-us-gov");
    reveal_strlit("aws-iso");
    reveal_strlit("aws-iso-b");
    assert("aws"@.len() == 3 && "aws-cn"@.len() == 6 && "aws-us-gov"@.len() == 10
        && "aws-iso"@.len() == 7 && "aws-iso-b"@.len() == 9);
    assert(is_geography(geo) <==> one_of_nine(geo));
}

/// `cn`, an area and a number make the name of a region.
pub proof fn law_china_names(area: Seq<char>, number: Seq<char>)
    requires
        area_text(area),
        number_text(number),
    ensures
        region_fault("cn-"@ + area + "-"@ + number) is None,
{
    lemma_classes(area);
    lemma_classes(number);
    let rest = area + "-"@ + number;
    let region = "cn-"@ + area + "-"@ + number;
    assert(region =~= "cn-"@ + rest);
    law_partition(rest, rest);
    law_china_region(region);
}

/// `us-gov`, `us-iso` or `us-isob`, an area and a number make the name of a region.
pub proof fn law_government_names(head: Seq<char>, area: Seq<char>, number: Seq<char>)
    requires
        head == "us-gov-"@ || head == "us-iso-"@ || head == "us-isob-"@,
        area_text(area),
        number_text(number),
    ensures
        region_fault(head + area + "-"@ + number) is None,
{
    lemma_classes(area);
    lemma_classes(number);
    let rest = area + "-"@ + number;
    let region = head + area + "-"@ + number;
    assert(region =~= head + rest);
    lemma_head(rest, head);
    law_government_region(region, head);
}

/// What the name of a region begins with: one of the nine geographies, `cn`, or one of the three of
/// the United States' government, and a hyphen.
pub open spec fn region_head(head: Seq<char>) -> bool {
    ||| head == "us-"@ || head == "eu-"@ || head == "ap-"@ || head == "sa-"@ || head == "ca-"@
    ||| head == "me-"@ || head == "af-"@ || head == "il-"@ || head == "mx-"@ || head == "cn-"@
    ||| head == "us-gov-"@ || head == "us-iso-"@ || head == "us-isob-"@
}

/// Every valid name is such a head, an area, a hyphen and a number.
pub proof fn law_valid_names(region: Seq<char>)
    requires
        region_fault(region) is None,
    ensures
        exists|head: Seq<char>, area: Seq<char>, number: Seq<char>|
            #![trigger region_head(head), area_text(area), number_text(number)]
            {
                &&& region == head + area + "-"@ + number
                &&& region_head(head) && area_text(area) && number_text(number)
            },
{
    reveal_strlit("aws");
    if "cn-"@.is_prefix_of(region) {
        law_china_region(region);
        lemma_headed(region, "cn-"@);
    } else if "us-gov-"@.is_prefix_of(region) {
        law_government_region(region, "us-gov-"@);
        lemma_headed(region, "us-gov-"@);
    } else if "us-isob-"@.is_prefix_of(region) {
        law_government_region(region, "us-isob-"@);
        lemma_headed(region, "us-isob-"@);
    } else if "us-iso-"@.is_prefix_of(region) {
        law_government_region(region, "us-iso-"@);
        lemma_headed(region, "us-iso-"@);
    } else {
        law_standard_region(region);
        let (geo, area, number) = choose|geo: Seq<char>, area: Seq<char>, number: Seq<char>|
            #![trigger is_geography(geo), is_area(area), is_number(number)]
            {
                &&& is_geography(geo)
                &&& is_area(area)
                &&& is_number(number)
                &&& region == geo + "-"@ + area + "-"@ + number
            };
        lemma_nine_heads(geo);
        lemma_classes(area);
        lemma_classes(number);
        assert(region_head(geo + "-"@));
        assert(region == (geo + "-"@) + area + "-"@ + number);
    }
}

proof fn lemma_nine_heads(geo: Seq<char>)
    requires
        is_geography(geo),
    ensures
        region_head(geo + "-"@),
{
    reveal_strlit("-");
    reveal_strlit("us");
    reveal_strlit("eu");
    reveal_strlit("ap");
    reveal_strlit("sa");
    reveal_strlit("ca");
    reveal_strlit("me");
    reveal_strlit("af");
    reveal_strlit("il");
    reveal_strlit("mx");
    reveal_strlit("us-");
    reveal_strlit("eu-");
    reveal_strlit("ap-");
    reveal_strlit("sa-");
    reveal_strlit("ca-");
    reveal_strlit("me-");
    reveal_strlit("af-");
    reveal_strlit("il-");
    reveal_strlit("mx-");
    assert("us"@ + "-"@ =~= "us-"@);
    assert("eu"@ + "-"@ =~= "eu-"@);
    assert("ap"@ + "-"@ =~= "ap-"@);
    assert("sa"@ + "-"@ =~= "sa-"@);
    assert("ca"@ + "-"@ =~= "ca-"@);
    assert("me"@ + "-"@ =~= "me-"@);
    assert("af"@ + "-"@ =~= "af-"@);
    assert("il"@ + "-"@ =~= "il-"@);
    assert("mx"@ + "-"@ =~= "mx-"@);
}

proof fn lemma_headed(region: Seq<char>, head: Seq<char>)
    requires
        region_head(head),
        exists|area: Seq<char>, number: Seq<char>|
            #![trigger is_area(area), is_number(number)]
            {
                &&& is_area(area)
                &&& is_number(number)
                &&& region == head + area + "-"@ + number
            },
    ensures
        exists|found: Seq<char>, area: Seq<char>, number: Seq<char>|
            #![trigger region_head(found), area_text(area), number_text(number)]
            {
                &&& region == found + area + "-"@ + number
                &&& region_head(found) && area_text(area) && number_text(number)
            },
{
    let (area, number) = choose|area: Seq<char>, number: Seq<char>|
        #![trigger is_area(area), is_number(number)]
        {
            &&& is_area(area)
            &&& is_number(number)
            &&& region == head + area + "-"@ + number
        };
    lemma_classes(area);
    lemma_classes(number);
    assert(region_head(head) && area_text(area) && number_text(number));
}

/// The reason why a text is not the name of a region tells the form that was wanted, by the head of
/// the text.
pub proof fn law_region_reasons(region: Seq<char>)
    ensures
        region_fault(region) matches Some(why) ==> if "cn-"@.is_prefix_of(region) {
            why == "China region must be cn-<area>-<number>"@
        } else if "us-gov-"@.is_prefix_of(region) {
            why == "GovCloud region must be us-gov-<area>-<number>"@
        } else if "us-isob-"@.is_prefix_of(region) {
            why == "ISO-B region must be us-isob-<area>-<number>"@
        } else if "us-iso-"@.is_prefix_of(region) {
            why == "ISO region must be us-iso-<area>-<number>"@
        } else {
            ||| why == "must be <geo>-<area>-<number> (e.g. us-east-1)"@
            ||| exists|geo: Seq<char>|
                why == #[trigger] ("unknown geography `"@ + geo)
                    + "` (us|eu|ap|sa|ca|me|af|il|mx)"@
        },
{
}

/// What is answered of a region's name: the verdict, and its partition.
pub proof fn law_region_is_judged(opts: JsonView)
    ensures
        match opts.text_field_or("region"@, "name"@) {
            None => valid_region(opts) == Err::<JsonView, Seq<char>>("missing region"@),
            Some(region) => {
                let said = valid_region(opts)->Ok_0;
                &&& valid_region(opts) is Ok
                &&& said.text_field("region"@) == Some(region)
                &&& said.text_field("partition"@) == Some(partition(region))
                &&& match region_fault(region) {
                    None => said.bool_field("valid"@) == Some(true) && said.field("reason"@) == Some(
                        JsonView::Null,
                    ),
                    Some(why) => said.bool_field("valid"@) == Some(false) && said.text_field(
                        "reason"@,
                    ) == Some(why),
                }
                &&& said->Object_0.dom() == set!["region"@, "valid"@, "partition"@, "reason"@]
            },
        },
{
    lemma_names();
    if opts.text_field_or("region"@, "name"@) is Some {
        assert(valid_region(opts)->Ok_0->Object_0.dom() =~= set![
            "region"@,
            "valid"@,
            "partition"@,
            "reason"@,
        ]);
    }
}

/// A zone is a region that ends in a digit, and a lower-case letter; the answer has both, and any
/// other text is refused.
pub proof fn law_zone(opts: JsonView, region: Seq<char>, letter: char)
    ensures
        opts.text_field_or("az"@, "zone"@) is None ==> region_for_az(opts) == Err::<
            JsonView,
            Seq<char>,
        >("missing az"@),
        opts.text_field_or("az"@, "zone"@) == Some(region.push(letter)) ==> region_for_az(opts) == if 97
            <= letter as int <= 122 && region.len() > 0 && 48 <= region.last() as int <= 57 {
            Ok::<JsonView, Seq<char>>(
                JsonView::Object(
                    map![
                        "az"@ => JsonView::Text(region.push(letter)),
                        "region"@ => JsonView::Text(region),
                        "zone_letter"@ => JsonView::Text(seq![letter]),
                    ],
                ),
            )
        } else {
            Err(
                "not a standard AZ (want <region><letter>, e.g. us-east-1a): "@ + region.push(
                    letter,
                ),
            )
        },
        opts.text_field_or("az"@, "zone"@) == Some(Seq::<char>::empty()) ==> region_for_az(opts)
            is Err,
{
    let az = region.push(letter);
    assert(az.drop_last() =~= region);
    assert(az.last() == letter);
    if region.len() > 0 {
        assert(az[az.len() - 2] == region.last());
    }
}

/// An endpoint that ends in one of the four domains is that domain and what stands before it, without
/// the dots that this ends in; one that ends in none of them is not known.
pub proof fn law_endpoint_parts(head: Seq<char>, suffix: Seq<char>, other: Seq<char>)
    ensures
        suffix == "amazonaws.com"@ || suffix == "amazonaws.com.cn"@ || suffix == "c2s.ic.gov"@
            || suffix == "sc2s.sgov.gov"@ ==> exists|n: int|
            {
                &&& 0 <= n <= head.len()
                &&& endpoint_parts(head + suffix) == Some((#[trigger] head.take(n), suffix))
                &&& forall|i: int| n <= i < head.len() ==> #[trigger] head[i] == '.'
                &&& n > 0 ==> head[n - 1] != '.'
            },
        !"amazonaws.com"@.is_suffix_of(other) && !"amazonaws.com.cn"@.is_suffix_of(other)
            && !"c2s.ic.gov"@.is_suffix_of(other) && !"sc2s.sgov.gov"@.is_suffix_of(other)
            ==> endpoint_parts(other) is None,
{
    if suffix == "amazonaws.com"@ || suffix == "amazonaws.com.cn"@ || suffix == "c2s.ic.gov"@
        || suffix == "sc2s.sgov.gov"@ {
        reveal_strlit("amazonaws.com");
        reveal_strlit("amazonaws.com.cn");
        reveal_strlit("c2s.ic.gov");
        reveal_strlit("sc2s.sgov.gov");
        let (com, cn, iso, isob) = (
            "amazonaws.com"@,
            "amazonaws.com.cn"@,
            "c2s.ic.gov"@,
            "sc2s.sgov.gov"@,
        );
        assert(com[12] == 'm' && cn[15] == 'n' && iso[9] == 'v' && isob[12] == 'v');
        assert(iso[5] == 'c' && isob[8] == 'v');
        let text = head + suffix;
        let size = text.len() as int;
        assert(text.subrange(size - suffix.len(), size) =~= suffix);
        assert(suffix.is_suffix_of(text));
        assert(text.take(size - suffix.len()) =~= head);
        assert(text[size - 1] == suffix[suffix.len() - 1]);
        assert(text[size - 5] == suffix[suffix.len() - 5]);
        if suffix != cn && cn.is_suffix_of(text) {
            assert(text.subrange(size - 16, size)[15] == text[size - 1]);
        }
        if suffix != isob && isob.is_suffix_of(text) {
            assert(text.subrange(size - 13, size)[12] == text[size - 1]);
            assert(text.subrange(size - 13, size)[8] == text[size - 5]);
        }
        if suffix != iso && iso.is_suffix_of(text) {
            assert(text.subrange(size - 10, size)[9] == text[size - 1]);
            assert(text.subrange(size - 10, size)[5] == text[size - 5]);
        }
        let n = law_without_trailing(head, '.');
        assert(head.take(n) == head.take(n));
    }
}

/// The endpoint of a service is the service, a dot, the region, a dot and the domain of the region's
/// partition; its URL has `https://` before that. Neither the service nor the region may be missing
/// or empty.
pub proof fn law_service_endpoint(opts: JsonView)
    ensures
        ({
            let service = opts.text_field("service"@);
            let region = opts.text_field("region"@);
            if service is None || service.unwrap().len() == 0 {
                service_endpoint(opts) == Err::<JsonView, Seq<char>>("missing service"@)
            } else if region is None || region.unwrap().len() == 0 {
                service_endpoint(opts) == Err::<JsonView, Seq<char>>("missing region"@)
            } else {
                let said = service_endpoint(opts)->Ok_0;
                let suffix = dns_suffix(partition(region.unwrap())).unwrap();
                let endpoint = service.unwrap() + "."@ + region.unwrap() + "."@ + suffix;
                &&& service_endpoint(opts) is Ok
                &&& said.text_field("service"@) == service
                &&& said.text_field("region"@) == region
                &&& said.text_field("partition"@) == Some(partition(region.unwrap()))
                &&& said.text_field("dns_suffix"@) == Some(suffix)
                &&& said.text_field("endpoint"@) == Some(endpoint)
                &&& said.text_field("url"@) == Some("https://"@ + endpoint)
                &&& said->Object_0.dom() == set![
                    "service"@,
                    "region"@,
                    "partition"@,
                    "dns_suffix"@,
                    "endpoint"@,
                    "url"@,
                ]
            }
        }),
{
    lemma_names();
    if service_endpoint(opts) is Ok {
        assert(service_endpoint(opts)->Ok_0->Object_0.dom() =~= set![
            "service"@,
            "region"@,
            "partition"@,
            "dns_suffix"@,
            "endpoint"@,
            "url"@,
        ]);
    }
}

/// A host is taken apart at its first dot: what stands before it is the service, and what stands
/// behind it is the region and its domain. A host without a dot, without a service, without a known
/// domain or without a region is refused, each with its own message.
pub proof fn law_service_endpoint_is_read(
    opts: JsonView,
    host: Seq<char>,
    service: Seq<char>,
    rest: Seq<char>,
)
    requires
        opts.text_field_or("endpoint"@, "url"@) is Some,
        host_in(opts.text_field_or("endpoint"@, "url"@).unwrap()) == host,
    ensures
        !host.contains('.') ==> parse_service_endpoint(opts) == Err::<JsonView, Seq<char>>(
            "not a service endpoint host `"@ + host + "`"@,
        ),
        host == service + seq!['.'] + rest && !service.contains('.') ==> {
            if service.len() == 0 {
                parse_service_endpoint(opts) == Err::<JsonView, Seq<char>>(
                    "service endpoint has no service: `"@ + host + "`"@,
                )
            } else {
                match endpoint_parts(rest) {
                    None => parse_service_endpoint(opts) == Err::<JsonView, Seq<char>>(
                        "unrecognized service endpoint host `"@ + host + "`"@,
                    ),
                    Some((region, suffix)) => if region.len() == 0 {
                        parse_service_endpoint(opts) == Err::<JsonView, Seq<char>>(
                            "service endpoint has no region: `"@ + host + "`"@,
                        )
                    } else {
                        let said = parse_service_endpoint(opts)->Ok_0;
                        let endpoint = service + "."@ + region + "."@ + suffix;
                        &&& parse_service_endpoint(opts) is Ok
                        &&& said.text_field("service"@) == Some(service)
                        &&& said.text_field("region"@) == Some(region)
                        &&& said.text_field("partition"@) == Some(partition(region))
                        &&& said.text_field("dns_suffix"@) == Some(suffix)
                        &&& said.text_field("endpoint"@) == Some(endpoint)
                        &&& said.text_field("url"@) == Some("https://"@ + endpoint)
                    },
                }
            }
        },
{
    lemma_names();
    reveal_strlit(".");
    assert("."@ =~= seq!['.']);
    crate::split::lemma_cut_char(host, '.');
    if !host.contains('.') {
        assert forall|i: int| 0 <= i < host.len() implies #[trigger] host[i] != '.' by {
            assert(host.contains(host[i]));
        }
    }
    if host == service + seq!['.'] + rest && !service.contains('.') {
        assert forall|i: int| 0 <= i < service.len() implies #[trigger] service[i] != '.' by {
            assert(service.contains(service[i]));
        }
        lemma_cut_back(service, '.', rest);
    }
}

/// The host in a text stands behind `https://` or `http://`, where the text begins with one of them,
/// and before the first slash or question mark that follows.
pub proof fn law_host_in(raw: Seq<char>, rest: Seq<char>)
    ensures
        host_in("https://"@ + rest) == host_in("http://"@ + rest),
        !host_in(raw).contains('/'),
        !host_in(raw).contains('?'),
        host_in("https://"@ + rest).is_prefix_of(rest),
        ({
            let host = host_in("https://"@ + rest);
            host == rest || rest[host.len() as int] == '/' || rest[host.len() as int] == '?'
        }),
        !"https://"@.is_prefix_of(raw) && !"http://"@.is_prefix_of(raw) ==> {
            &&& host_in(raw).is_prefix_of(raw)
            &&& host_in(raw) == raw || raw[host_in(raw).len() as int] == '/' || raw[host_in(
                raw,
            ).len() as int] == '?'
        },
{
    reveal_strlit("https://");
    reveal_strlit("http://");
    let (a, b) = ("https://"@ + rest, "http://"@ + rest);
    assert(a.subrange(0, 8) =~= "https://"@ && a.skip(8) =~= rest);
    assert(b.subrange(0, 7) =~= "http://"@ && b.skip(7) =~= rest);
    assert("https://"@[4] == 's' && "http://"@[4] == ':');
    assert(!"https://"@.is_prefix_of(b)) by {
        if "https://"@.is_prefix_of(b) {
            assert(b.subrange(0, 8)[4] == b[4]);
        }
    }
    lemma_cut_off(rest);
    lemma_cut_off(raw);
    let tail = match after_head(raw, "https://"@) {
        Some(found) => found,
        None => after_head(raw, "http://"@).unwrap_or(raw),
    };
    lemma_cut_off(tail);
}

proof fn lemma_cut_off(text: Seq<char>)
    ensures
        ({
            let host = match cut_either(text, '/', '?') {
                Some((host, _)) => host,
                None => text,
            };
            &&& !host.contains('/') && !host.contains('?')
            &&& host.is_prefix_of(text)
            &&& host == text || text[host.len() as int] == '/' || text[host.len() as int] == '?'
        }),
{
    law_cut_either(text, '/', '?');
    match cut_either(text, '/', '?') {
        Some((host, rest)) => {
            assert(text.subrange(0, host.len() as int) =~= host);
        },
        None => {
            assert(text.subrange(0, text.len() as int) =~= text);
        },
    }
}

}
