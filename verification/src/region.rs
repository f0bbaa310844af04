//! Regions, the partitions that they belong to, and the domains of those.
use vstd::prelude::*;
use vstd::string::*;

use crate::json::outcome;
use crate::json::put;
use crate::json::text_or_null;
use crate::json::Json;
use crate::json::JsonView;
use crate::split::all_fields;
use crate::split::fields_up_to;
use crate::split::lacks;
use crate::split::lemma_cut_back;
use crate::split::lemma_cut_char;
use crate::split::lemma_fields_enough;
use crate::split::lemma_next_field;
use crate::split::split_all;
use crate::split::strs_view;
use crate::text::chars_of;
use crate::text::cut;
use crate::text::is_digit;
use crate::text::same;
use crate::text::starts_with;
use crate::text::str_view;
use crate::validate::all_in_class;
use crate::validate::in_class;
use crate::validate::made_of;
use crate::validate::Class;

verus! {

/// The partition that a region belongs to, by the head of its name.
pub open spec fn partition(region: Seq<char>) -> Seq<char> {
    if "cn-"@.is_prefix_of(region) {
        "aws-cn"@
    } else if "us-gov-"@.is_prefix_of(region) {
        "aws-us-gov"@
    } else if "us-isob-"@.is_prefix_of(region) {
        "aws-iso-b"@
    } else if "us-iso-"@.is_prefix_of(region) {
        "aws-iso"@
    } else {
        "aws"@
    }
}

/// The domain under which the endpoints of a partition live.
pub open spec fn dns_suffix(partition: Seq<char>) -> Option<Seq<char>> {
    if partition == "aws"@ || partition == "aws-us-gov"@ {
        Some("amazonaws.com"@)
    } else if partition == "aws-cn"@ {
        Some("amazonaws.com.cn"@)
    } else if partition == "aws-iso"@ {
        Some("c2s.ic.gov"@)
    } else if partition == "aws-iso-b"@ {
        Some("sc2s.sgov.gov"@)
    } else {
        None
    }
}

/// What `op_partition_for_region` answers.
pub open spec fn partition_for_region(opts: JsonView) -> Result<JsonView, Seq<char>> {
    match opts.text_field("region"@) {
        None => Err("missing region"@),
        Some(region) => Ok(
            JsonView::Object(
                map![
                    "region"@ => JsonView::Text(region),
                    "partition"@ => JsonView::Text(partition(region)),
                ],
            ),
        ),
    }
}

/// What `op_dns_suffix_for_partition` answers.
pub open spec fn dns_suffix_for_partition(opts: JsonView) -> Result<JsonView, Seq<char>> {
    match opts.text_field("partition"@) {
        None => Err("missing partition"@),
        Some(name) => match dns_suffix(name) {
            None => Err("unknown partition `"@ + name + "`"@),
            Some(suffix) => Ok(
                JsonView::Object(
                    map![
                        "partition"@ => JsonView::Text(name),
                        "dns_suffix"@ => JsonView::Text(suffix),
                    ],
                ),
            ),
        },
    }
}

/// The geographies that the names of regions in the partition `aws` begin with.
pub open spec fn is_geography(geo: Seq<char>) -> bool {
    ||| geo == "us"@
    ||| geo == "eu"@
    ||| geo == "ap"@
    ||| geo == "sa"@
    ||| geo == "ca"@
    ||| geo == "me"@
    ||| geo == "af"@
    ||| geo == "il"@
    ||| geo == "mx"@
}

/// The area in the name of a region.
pub open spec fn is_area(text: Seq<char>) -> bool {
    text.len() > 0 && made_of(text, Class::Word)
}

/// The number at the end of the name of a region.
pub open spec fn is_number(text: Seq<char>) -> bool {
    text.len() > 0 && made_of(text, Class::Digit)
}

/// There are `n` fields, and the last two of them are an area and a number.
pub open spec fn ends_in_area(fields: Seq<Seq<char>>, n: nat) -> bool {
    fields.len() == n && is_area(fields[n - 2]) && is_number(fields[n - 1])
}

/// Why a text is not the name of a region, if it is not.
pub open spec fn region_fault(region: Seq<char>) -> Option<Seq<char>> {
    let fields = all_fields(region, "-"@);
    if "cn-"@.is_prefix_of(region) {
        if ends_in_area(fields, 3) {
            None
        } else {
            Some("China region must be cn-<area>-<number>"@)
        }
    } else if "us-gov-"@.is_prefix_of(region) {
        if ends_in_area(fields, 4) {
            None
        } else {
            Some("GovCloud region must be us-gov-<area>-<number>"@)
        }
    } else if "us-isob-"@.is_prefix_of(region) {
        if ends_in_area(fields, 4) {
            None
        } else {
            Some("ISO-B region must be us-isob-<area>-<number>"@)
        }
    } else if "us-iso-"@.is_prefix_of(region) {
        if ends_in_area(fields, 4) {
            None
        } else {
            Some("ISO region must be us-iso-<area>-<number>"@)
        }
    } else if !ends_in_area(fields, 3) {
        Some("must be <geo>-<area>-<number> (e.g. us-east-1)"@)
    } else if !is_geography(fields[0]) {
        Some("unknown geography `"@ + fields[0] + "` (us|eu|ap|sa|ca|me|af|il|mx)"@)
    } else {
        None
    }
}

/// What `op_valid_region` answers.
pub open spec fn valid_region(opts: JsonView) -> Result<JsonView, Seq<char>> {
    match opts.text_field_or("region"@, "name"@) {
        None => Err("missing region"@),
        Some(region) => Ok(
            JsonView::Object(
                map![
                    "region"@ => JsonView::Text(region),
                    "valid"@ => JsonView::Bool(region_fault(region) is None),
                    "partition"@ => JsonView::Text(partition(region)),
                    "reason"@ => text_or_null(region_fault(region)),
                ],
            ),
        ),
    }
}

/// An availability zone: a region, which ends in a digit, and one lower-case letter.
pub open spec fn is_zone(az: Seq<char>) -> bool {
    az.len() >= 2 && 'a' <= az.last() <= 'z' && is_digit(az[az.len() - 2])
}

/// What `op_region_for_az` answers.
pub open spec fn region_for_az(opts: JsonView) -> Result<JsonView, Seq<char>> {
    match opts.text_field_or("az"@, "zone"@) {
        None => Err("missing az"@),
        Some(az) => if is_zone(az) {
            Ok(
                JsonView::Object(
                    map![
                        "az"@ => JsonView::Text(az),
                        "region"@ => JsonView::Text(az.drop_last()),
                        "zone_letter"@ => JsonView::Text(seq![az.last()]),
                    ],
                ),
            )
        } else {
            Err("not a standard AZ (want <region><letter>, e.g. us-east-1a): "@ + az)
        },
    }
}

/// The names of the partitions differ.
proof fn lemma_partition_names()
    ensures
        "aws"@.len() == 3,
        "aws-cn"@.len() == 6,
        "aws-us-gov"@.len() == 10,
        "aws-iso"@.len() == 7,
        "aws-iso-b"@.len() == 9,
{
    reveal_strlit("aws");
    reveal_strlit("aws-cn");
    reveal_strlit("aws-us-gov");
    reveal_strlit("aws-iso");
    reveal_strlit("aws-iso-b");
}

/// Every region belongs to a partition whose domain is known.
pub proof fn law_every_region_has_a_domain(region: Seq<char>)
    ensures
        dns_suffix(partition(region)) is Some,
{
}

/// The fields of a text that begins with a field and a hyphen.
proof fn lemma_fields_of_joined(field: Seq<char>, rest: Seq<char>)
    requires
        lacks(field, '-'),
    ensures
        all_fields(field + "-"@ + rest, "-"@) == seq![field] + all_fields(rest, "-"@),
{
    reveal_strlit("-");
    assert("-"@ =~= seq!['-']);
    let text = field + "-"@ + rest;
    lemma_cut_back(field, '-', rest);
    lemma_fields_enough(rest, "-"@, text.len());
}

/// A text without a hyphen is its only field.
proof fn lemma_only_field(text: Seq<char>)
    requires
        lacks(text, '-'),
    ensures
        all_fields(text, "-"@) == seq![text],
{
    reveal_strlit("-");
    assert("-"@ =~= seq!['-']);
    lemma_cut_char(text, '-');
}

/// The text that begins with the first of several fields.
proof fn lemma_fields_rejoin(text: Seq<char>) -> (rest: Seq<char>)
    requires
        all_fields(text, "-"@).len() > 1,
    ensures
        text == all_fields(text, "-"@)[0] + "-"@ + rest,
        all_fields(rest, "-"@) == all_fields(text, "-"@).skip(1),
        lacks(all_fields(text, "-"@)[0], '-'),
{
    reveal_strlit("-");
    assert("-"@ =~= seq!['-']);
    let rest = lemma_next_field(text, '-', text.len() + 1);
    lemma_fields_enough(rest, "-"@, text.len());
    rest
}

/// A text that ends in an area and a number, as they stand in its fields.
proof fn lemma_area_and_number(area: Seq<char>, number: Seq<char>)
    requires
        is_area(area),
        is_number(number),
    ensures
        all_fields(area + "-"@ + number, "-"@) == seq![area, number],
{
    assert forall|i: int| 0 <= i < area.len() implies #[trigger] area[i] != '-' by {
        assert(in_class(area[i], Class::Word));
    }
    assert forall|i: int| 0 <= i < number.len() implies #[trigger] number[i] != '-' by {
        assert(in_class(number[i], Class::Digit));
    }
    lemma_only_field(number);
    lemma_fields_of_joined(area, number);
    assert(seq![area] + seq![number] =~= seq![area, number]);
}

/// Two fields, a hyphen between them.
proof fn lemma_two_fields(text: Seq<char>)
    requires
        all_fields(text, "-"@).len() == 2,
    ensures
        text == all_fields(text, "-"@)[0] + "-"@ + all_fields(text, "-"@)[1],
{
    let fields = all_fields(text, "-"@);
    let rest = lemma_fields_rejoin(text);
    lemma_last_field(rest);
    assert(fields.skip(1)[0] == fields[1]);
}

/// A text with a single field is that field.
proof fn lemma_last_field(text: Seq<char>)
    requires
        all_fields(text, "-"@).len() == 1,
    ensures
        all_fields(text, "-"@)[0] == text,
{
    if text.len() > 0 {
        reveal_strlit("-");
        assert("-"@ =~= seq!['-']);
        lemma_cut_char(text, '-');
        if cut(text, "-"@) is Some {
            let rest = cut(text, "-"@).unwrap().1;
            assert(fields_up_to(rest, "-"@, text.len()).len() > 0);
        }
    }
}

/// In the partition `aws` the name of a region is a geography, an area and a number, with
/// hyphens between them.
pub proof fn law_standard_region(region: Seq<char>)
    requires
        partition(region) == "aws"@,
    ensures
        region_fault(region) is None <==> exists|geo: Seq<char>, area: Seq<char>, number: Seq<char>|
            #![trigger is_geography(geo), is_area(area), is_number(number)]
            {
                &&& is_geography(geo)
                &&& is_area(area)
                &&& is_number(number)
                &&& region == geo + "-"@ + area + "-"@ + number
            },
{
    lemma_partition_names();
    let fields = all_fields(region, "-"@);
    if region_fault(region) is None {
        let rest = lemma_fields_rejoin(region);
        lemma_two_fields(rest);
        assert(fields.skip(1)[0] == fields[1]);
        assert(fields.skip(1)[1] == fields[2]);
        assert(region =~= fields[0] + "-"@ + fields[1] + "-"@ + fields[2]);
        assert(is_geography(fields[0]) && is_area(fields[1]) && is_number(fields[2]));
    }
    if exists|geo: Seq<char>, area: Seq<char>, number: Seq<char>|
        #![trigger is_geography(geo), is_area(area), is_number(number)]
        {
            &&& is_geography(geo)
            &&& is_area(area)
            &&& is_number(number)
            &&& region == geo + "-"@ + area + "-"@ + number
        } {
        let (geo, area, number) = choose|geo: Seq<char>, area: Seq<char>, number: Seq<char>|
            #![trigger is_geography(geo), is_area(area), is_number(number)]
            {
                &&& is_geography(geo)
                &&& is_area(area)
                &&& is_number(number)
                &&& region == geo + "-"@ + area + "-"@ + number
            };
        lemma_area_and_number(area, number);
        lemma_geography(geo);
        lemma_fields_of_joined(geo, area + "-"@ + number);
        assert(region =~= geo + "-"@ + (area + "-"@ + number));
        assert(fields =~= seq![geo, area, number]);
    }
}

/// The fields of a name that is made of a geography, an area and a number.
pub proof fn lemma_name_fields(geo: Seq<char>, area: Seq<char>, number: Seq<char>)
    requires
        !geo.contains('-'),
        is_area(area),
        is_number(number),
    ensures
        all_fields(geo + "-"@ + area + "-"@ + number, "-"@) == seq![geo, area, number],
{
    assert forall|i: int| 0 <= i < geo.len() implies #[trigger] geo[i] != '-' by {
        assert(geo.contains(geo[i]));
    }
    lemma_area_and_number(area, number);
    lemma_fields_of_joined(geo, area + "-"@ + number);
    assert(geo + "-"@ + area + "-"@ + number =~= geo + "-"@ + (area + "-"@ + number));
    assert(all_fields(geo + "-"@ + area + "-"@ + number, "-"@) =~= seq![geo, area, number]);
}

/// A geography has no hyphen in it.
proof fn lemma_geography(geo: Seq<char>)
    requires
        is_geography(geo),
    ensures
        lacks(geo, '-'),
{
    reveal_strlit("us");
    reveal_strlit("eu");
    reveal_strlit("ap");
    reveal_strlit("sa");
    reveal_strlit("ca");
    reveal_strlit("me");
    reveal_strlit("af");
    reveal_strlit("il");
    reveal_strlit("mx");
}

/// In the partition `aws-cn` the name of a region is `cn`, an area and a number.
pub proof fn law_china_region(region: Seq<char>)
    requires
        partition(region) == "aws-cn"@,
    ensures
        region_fault(region) is None <==> exists|area: Seq<char>, number: Seq<char>|
            #![trigger is_area(area), is_number(number)]
            {
                &&& is_area(area)
                &&& is_number(number)
                &&& region == "cn-"@ + area + "-"@ + number
            },
{
    lemma_partition_names();
    reveal_strlit("cn");
    reveal_strlit("cn-");
    reveal_strlit("-");
    assert("cn-"@ =~= "cn"@ + "-"@);
    let tail = region.skip(3);
    assert(region =~= "cn"@ + "-"@ + tail);
    lemma_fields_of_joined("cn"@, tail);
    lemma_tail(tail);
    let fields = all_fields(region, "-"@);
    assert(fields.skip(1) =~= all_fields(tail, "-"@));
    if region_fault(region) is None {
        assert(fields.skip(1)[0] == fields[1] && fields.skip(1)[1] == fields[2]);
        assert(region =~= "cn-"@ + fields[1] + "-"@ + fields[2]);
    }
    if exists|area: Seq<char>, number: Seq<char>|
        #![trigger is_area(area), is_number(number)]
        {
            &&& is_area(area)
            &&& is_number(number)
            &&& region == "cn-"@ + area + "-"@ + number
        } {
        let (area, number) = choose|area: Seq<char>, number: Seq<char>|
            #![trigger is_area(area), is_number(number)]
            {
                &&& is_area(area)
                &&& is_number(number)
                &&& region == "cn-"@ + area + "-"@ + number
            };
        assert(tail =~= area + "-"@ + number);
        lemma_area_and_number(area, number);
        assert(fields =~= seq!["cn"@, area, number]);
    }
}

/// What follows the head of a region's name: two fields make it up.
proof fn lemma_tail(tail: Seq<char>)
    ensures
        all_fields(tail, "-"@).len() == 2 ==> tail == all_fields(tail, "-"@)[0] + "-"@
            + all_fields(tail, "-"@)[1],
{
    if all_fields(tail, "-"@).len() == 2 {
        lemma_two_fields(tail);
    }
}

/// The three heads that are made of two fields.
pub open spec fn is_us_head(head: Seq<char>) -> bool {
    head == "us-gov-"@ || head == "us-iso-"@ || head == "us-isob-"@
}

/// In the partitions of the United States' government the name of a region is the head that tells
/// the partition, an area and a number.
pub proof fn law_government_region(region: Seq<char>, head: Seq<char>)
    requires
        is_us_head(head),
        head.is_prefix_of(region),
    ensures
        region_fault(region) is None <==> exists|area: Seq<char>, number: Seq<char>|
            #![trigger is_area(area), is_number(number)]
            {
                &&& is_area(area)
                &&& is_number(number)
                &&& region == head + area + "-"@ + number
            },
{
    let second = lemma_us_head(region, head);
    let tail = region.skip(head.len() as int);
    assert(region =~= head + tail);
    assert(region =~= "us"@ + "-"@ + (second + "-"@ + tail));
    lemma_fields_of_joined("us"@, second + "-"@ + tail);
    lemma_fields_of_joined(second, tail);
    lemma_tail(tail);
    let fields = all_fields(region, "-"@);
    let ends = all_fields(tail, "-"@);
    assert(fields =~= seq!["us"@, second] + ends);
    if region_fault(region) is None {
        assert(ends[0] == fields[2] && ends[1] == fields[3]);
        assert(region =~= head + fields[2] + "-"@ + fields[3]);
    }
    if exists|area: Seq<char>, number: Seq<char>|
        #![trigger is_area(area), is_number(number)]
        {
            &&& is_area(area)
            &&& is_number(number)
            &&& region == head + area + "-"@ + number
        } {
        let (area, number) = choose|area: Seq<char>, number: Seq<char>|
            #![trigger is_area(area), is_number(number)]
            {
                &&& is_area(area)
                &&& is_number(number)
                &&& region == head + area + "-"@ + number
            };
        assert(tail =~= area + "-"@ + number);
        lemma_area_and_number(area, number);
        assert(fields[2] == area && fields[3] == number);
    }
}

/// The second field of a head, and which rule the head selects.
proof fn lemma_us_head(region: Seq<char>, head: Seq<char>) -> (second: Seq<char>)
    requires
        is_us_head(head),
        head.is_prefix_of(region),
    ensures
        head == "us"@ + "-"@ + second + "-"@,
        lacks("us"@, '-'),
        lacks(second, '-'),
        region_fault(region) is None <==> ends_in_area(all_fields(region, "-"@), 4),
{
    reveal_strlit("us");
    reveal_strlit("-");
    reveal_strlit("cn-");
    reveal_strlit("us-gov-");
    reveal_strlit("us-iso-");
    reveal_strlit("us-isob-");
    assert(region[0] == head[0] && head[0] == 'u');
    assert(region[6] == head[6]);
    assert("cn-"@[0] == 'c' && "us-gov-"@[3] == 'g' && "us-iso-"@[3] == 'i' && "us-iso-"@[6]
        == '-' && "us-isob-"@[6] == 'b' && "us-isob-"@[3] == 'i');
    assert(region[3] == head[3]);
    let second = head.subrange(3, head.len() - 1);
    assert(head =~= "us"@ + "-"@ + second + "-"@);
    second
}

/// A zone is its region and its letter, one behind the other.
pub proof fn law_zone_is_region_and_letter(opts: JsonView)
    requires
        region_for_az(opts) is Ok,
    ensures
        ({
            let said = region_for_az(opts)->Ok_0;
            said.text_field("az"@).unwrap() == said.text_field("region"@).unwrap()
                + said.text_field("zone_letter"@).unwrap()
        }),
{
    reveal_strlit("az");
    reveal_strlit("region");
    reveal_strlit("zone_letter");
    assert("az"@.len() == 2 && "region"@.len() == 6 && "zone_letter"@.len() == 11);
    let said = region_for_az(opts)->Ok_0;
    let az = opts.text_field_or("az"@, "zone"@).unwrap();
    assert(said.text_field("az"@) == Some(az));
    assert(said.text_field("region"@) == Some(az.drop_last()));
    assert(said.text_field("zone_letter"@) == Some(seq![az.last()]));
    assert(az =~= az.drop_last() + seq![az.last()]);
}

/// Every valid region with a lower-case letter behind it is a zone of that region.
pub proof fn law_valid_region_has_zones(region: Seq<char>, letter: char)
    requires
        region_fault(region) is None,
        'a' <= letter <= 'z',
    ensures
        is_zone(region.push(letter)),
        region.push(letter).drop_last() == region,
{
    let fields = all_fields(region, "-"@);
    let n = fields.len();
    lemma_last_fields(region);
    assert(is_number(fields.last()));
    let last = fields.last();
    assert(in_class(last[last.len() - 1], Class::Digit));
    assert(region.push(letter).drop_last() =~= region);
}

/// A text ends with its last field.
proof fn lemma_last_fields(text: Seq<char>)
    ensures
        all_fields(text, "-"@).len() > 0,
        all_fields(text, "-"@).last().is_suffix_of(text),
    decreases text.len(),
{
    let fields = all_fields(text, "-"@);
    assert(fields.len() > 0);
    if fields.len() == 1 {
        lemma_last_field(text);
        assert(text.subrange(0, text.len() as int) =~= text);
    } else {
        let rest = lemma_fields_rejoin(text);
        reveal_strlit("-");
        lemma_last_fields(rest);
        let last = fields.last();
        assert(fields.skip(1).last() == last);
        assert(text.subrange(text.len() - last.len(), text.len() as int) =~= rest.subrange(
            rest.len() - last.len(),
            rest.len() as int,
        ));
    }
}

/// The partition that a region belongs to.
pub fn partition_of(region: &str) -> (name: &'static str)
    ensures
        name@ == partition(region@),
{
    if starts_with(region, "cn-") {
        "aws-cn"
    } else if starts_with(region, "us-gov-") {
        "aws-us-gov"
    } else if starts_with(region, "us-isob-") {
        "aws-iso-b"
    } else if starts_with(region, "us-iso-") {
        "aws-iso"
    } else {
        "aws"
    }
}

/// The domain of a partition, if it is one of those that are known.
pub fn dns_suffix_of(partition: &str) -> (suffix: Option<&'static str>)
    ensures
        str_view(suffix) == dns_suffix(partition@),
{
    if same(partition, "aws") || same(partition, "aws-us-gov") {
        Some("amazonaws.com")
    } else if same(partition, "aws-cn") {
        Some("amazonaws.com.cn")
    } else if same(partition, "aws-iso") {
        Some("c2s.ic.gov")
    } else if same(partition, "aws-iso-b") {
        Some("sc2s.sgov.gov")
    } else {
        None
    }
}

/// Says which partition `region` belongs to.
pub fn op_partition_for_region(opts: Json) -> (answer: Result<Json, String>)
    ensures
        outcome(answer) == partition_for_region(opts@),
{
    let region = match opts.text_at("region") {
        Some(region) => region,
        None => return Err("missing region".to_owned()),
    };
    let mut out: Vec<(String, Json)> = Vec::new();
    put(&mut out, "region", Json::text(region));
    put(&mut out, "partition", Json::text(partition_of(region)));
    Ok(Json::Object(out))
}

/// Says under which domain the endpoints of `partition` live.
pub fn op_dns_suffix_for_partition(opts: Json) -> (answer: Result<Json, String>)
    ensures
        outcome(answer) == dns_suffix_for_partition(opts@),
{
    let name = match opts.text_at("partition") {
        Some(name) => name,
        None => return Err("missing partition".to_owned()),
    };
    let suffix = match dns_suffix_of(name) {
        Some(suffix) => suffix,
        None => return Err("unknown partition `".to_owned().concat(name).concat("`")),
    };
    let mut out: Vec<(String, Json)> = Vec::new();
    put(&mut out, "partition", Json::text(name));
    put(&mut out, "dns_suffix", Json::text(suffix));
    Ok(Json::Object(out))
}

/// Whether `geo` is a geography of the partition `aws`.
fn geography(geo: &str) -> (found: bool)
    ensures
        found == is_geography(geo@),
{
    same(geo, "us") || same(geo, "eu") || same(geo, "ap") || same(geo, "sa") || same(geo, "ca")
        || same(geo, "me") || same(geo, "af") || same(geo, "il") || same(geo, "mx")
}

/// Whether there are `n` fields of which the last two are an area and a number.
fn area_at_end(fields: &Vec<&str>, n: usize) -> (found: bool)
    requires
        n >= 2,
    ensures
        found == ends_in_area(strs_view(fields@), n as nat),
{
    if fields.len() != n {
        return false;
    }
    let area = fields[n - 2];
    let number = fields[n - 1];
    !area.is_empty() && all_in_class(area, Class::Word) && !number.is_empty() && all_in_class(
        number,
        Class::Digit,
    )
}

/// Says whether `region` (or `name`) is the name of a region, and if not, why; and which partition
/// it belongs to.
pub fn op_valid_region(opts: Json) -> (answer: Result<Json, String>)
    ensures
        outcome(answer) == valid_region(opts@),
{
    let region = match opts.text_at_either("region", "name") {
        Some(region) => region,
        None => return Err("missing region".to_owned()),
    };
    let partition = partition_of(region);
    proof {
        lemma_partition_names();
        reveal_strlit("-");
    }
    let fields = split_all(region, "-");
    let ghost views = strs_view(fields@);
    let reason: Option<String> = if same(partition, "aws") {
        if !area_at_end(&fields, 3) {
            Some("must be <geo>-<area>-<number> (e.g. us-east-1)".to_owned())
        } else if !geography(fields[0]) {
            Some(
                "unknown geography `".to_owned().concat(fields[0]).concat(
                    "` (us|eu|ap|sa|ca|me|af|il|mx)",
                ),
            )
        } else {
            None
        }
    } else if same(partition, "aws-cn") {
        if area_at_end(&fields, 3) {
            None
        } else {
            Some("China region must be cn-<area>-<number>".to_owned())
        }
    } else if area_at_end(&fields, 4) {
        None
    } else if same(partition, "aws-us-gov") {
        Some("GovCloud region must be us-gov-<area>-<number>".to_owned())
    } else if same(partition, "aws-iso") {
        Some("ISO region must be us-iso-<area>-<number>".to_owned())
    } else {
        Some("ISO-B region must be us-isob-<area>-<number>".to_owned())
    };
    let mut out: Vec<(String, Json)> = Vec::new();
    put(&mut out, "region", Json::text(region));
    put(&mut out, "valid", Json::Bool(reason.is_none()));
    put(&mut out, "partition", Json::text(partition));
    put(
        &mut out,
        "reason",
        match reason {
            Some(why) => Json::Text(why),
            None => Json::Null,
        },
    );
    Ok(Json::Object(out))
}

/// Says which region the availability zone `az` (or `zone`) lies in.
pub fn op_region_for_az(opts: Json) -> (answer: Result<Json, String>)
    ensures
        outcome(answer) == region_for_az(opts@),
{
    let az = match opts.text_at_either("az", "zone") {
        Some(az) => az,
        None => return Err("missing az".to_owned()),
    };
    let chars = chars_of(az);
    let n = chars.len();
    if n < 2 || chars[n - 1] < 'a' || 'z' < chars[n - 1] || chars[n - 2] < '0' || '9' < chars[n
        - 2] {
        return Err(
            "not a standard AZ (want <region><letter>, e.g. us-east-1a): ".to_owned().concat(az),
        );
    }
    let mut region = String::new();
    let mut i: usize = 0;
    while i < n - 1
        invariant
            n == chars@.len(),
            n >= 2,
            i <= n - 1,
            region@ == chars@.take(i as int),
        decreases n - i,
    {
        region.push(chars[i]);
        i = i + 1;
    }
    let mut letter = String::new();
    letter.push(chars[n - 1]);
    assert(region@ =~= az@.drop_last());
    assert(letter@ =~= seq![az@.last()]);
    let mut out: Vec<(String, Json)> = Vec::new();
    put(&mut out, "az", Json::text(az));
    put(&mut out, "region", Json::Text(region));
    put(&mut out, "zone_letter", Json::Text(letter));
    Ok(Json::Object(out))
}

}
