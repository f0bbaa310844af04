//! DynamoDB attribute values, and plain JSON in place of them.
use vstd::prelude::*;
use vstd::string::*;

use crate::bytes::base64_bytes;
use crate::bytes::base64_text;
use crate::bytes::decode_base64;
use crate::bytes::encode_base64;
use crate::decimal::i64_of;
use crate::decimal::is_whole;
use crate::decimal::parse_i64;
use crate::json::fields_view;
use crate::json::float_number;
use crate::json::int_json;
use crate::json::items_view;
use crate::json::lemma_items_push;
use crate::json::number_of_float;
use crate::json::write_number;
use crate::json::Json;
use crate::json::JsonView;
use crate::options::strings_view;
use crate::text::after_head;
use crate::text::strip_prefix;

verus! {

/// An attribute value as contracts speak of it.
pub ghost enum AvView {
    S(Seq<char>),
    N(Seq<char>),
    Bool(bool),
    Null(bool),
    B(Seq<u8>),
    Ss(Seq<Seq<char>>),
    Ns(Seq<Seq<char>>),
    Bs(Seq<Seq<u8>>),
    L(Seq<AvView>),
    M(Map<Seq<char>, AvView>),
    Unknown,
}

/// An attribute value. A map lists its attributes; where a name is listed twice, the later one
/// counts. `Unknown` stands for a type that is not known here.
#[derive(Debug, PartialEq)]
pub enum AttributeValue {
    S(String),
    N(String),
    Bool(bool),
    Null(bool),
    B(Vec<u8>),
    Ss(Vec<String>),
    Ns(Vec<String>),
    Bs(Vec<Vec<u8>>),
    L(Vec<AttributeValue>),
    M(Vec<(String, AttributeValue)>),
    Unknown,
}

/// The runs of bytes in a list.
pub open spec fn blobs_view(list: Seq<Vec<u8>>) -> Seq<Seq<u8>> {
    list.map_values(|b: Vec<u8>| b@)
}

/// What an attribute value says.
pub open spec fn av_view(av: AttributeValue) -> AvView
    decreases av,
{
    match av {
        AttributeValue::S(s) => AvView::S(s@),
        AttributeValue::N(n) => AvView::N(n@),
        AttributeValue::Bool(b) => AvView::Bool(b),
        AttributeValue::Null(b) => AvView::Null(b),
        AttributeValue::B(b) => AvView::B(b@),
        AttributeValue::Ss(list) => AvView::Ss(strings_view(list@)),
        AttributeValue::Ns(list) => AvView::Ns(strings_view(list@)),
        AttributeValue::Bs(list) => AvView::Bs(blobs_view(list@)),
        AttributeValue::L(items) => AvView::L(list_view(items@)),
        AttributeValue::M(fields) => AvView::M(item_view(fields@)),
        AttributeValue::Unknown => AvView::Unknown,
    }
}

/// What the values in a list say, one by one.
pub open spec fn list_view(items: Seq<AttributeValue>) -> Seq<AvView>
    decreases items,
{
    Seq::new(
        items.len(),
        |i: int|
            if 0 <= i < items.len() {
                av_view(items[i])
            } else {
                AvView::Unknown
            },
    )
}

/// What the attributes of an item say, by name.
pub open spec fn item_view(fields: Seq<(String, AttributeValue)>) -> Map<Seq<char>, AvView>
    decreases fields,
{
    if fields.len() == 0 {
        Map::empty()
    } else {
        item_view(fields.drop_last()).insert(fields.last().0@, av_view(fields.last().1))
    }
}

/// One more value in a list.
proof fn lemma_list_push(items: Seq<AttributeValue>, item: AttributeValue)
    ensures
        list_view(items.push(item)) == list_view(items).push(av_view(item)),
{
    assert(list_view(items.push(item)) =~= list_view(items).push(av_view(item)));
}

impl View for AttributeValue {
    type V = AvView;

    open spec fn view(&self) -> AvView {
        av_view(*self)
    }
}

/// A text as an attribute: binary, if it is marked as base64 and is base64, and else a string.
pub open spec fn text_av(text: Seq<char>) -> AvView {
    match after_head(text, "base64:"@) {
        Some(code) => match base64_bytes(code) {
            Some(bytes) => AvView::B(bytes),
            None => AvView::S(text),
        },
        None => AvView::S(text),
    }
}

/// Plain JSON as an attribute: arrays are lists, and objects are maps.
pub open spec fn av_of(json: JsonView) -> AvView
    decreases json,
{
    match json {
        JsonView::Null => AvView::Null(true),
        JsonView::Bool(b) => AvView::Bool(b),
        JsonView::Number(n) => AvView::N(n),
        JsonView::Text(s) => text_av(s),
        JsonView::Array(items) => AvView::L(
            Seq::new(
                items.len(),
                |i: int|
                    if 0 <= i < items.len() {
                        av_of(items[i])
                    } else {
                        AvView::Unknown
                    },
            ),
        ),
        JsonView::Object(fields) => AvView::M(
            Map::new(
                |k: Seq<char>| fields.contains_key(k),
                |k: Seq<char>|
                    if fields.contains_key(k) {
                        av_of(fields[k])
                    } else {
                        AvView::Unknown
                    },
            ),
        ),
    }
}

/// The fields of a JSON object as the attributes of an item.
pub open spec fn item_of(fields: Map<Seq<char>, JsonView>) -> Map<Seq<char>, AvView> {
    Map::new(|k: Seq<char>| fields.contains_key(k), |k: Seq<char>| av_of(fields[k]))
}

/// Where an attribute is shown. The commands read the numbers in a set and drop what they do not
/// know; the library shows the numbers in a set as they were stored, and what it does not know by
/// the name `Unknown`.
#[derive(Clone, Copy)]
pub enum Surface {
    Command,
    Library,
}

/// A stored number as JSON: a whole number where it fits, else a floating-point number where that
/// is finite, else the text as it was stored.
pub open spec fn number_json(text: Seq<char>) -> JsonView {
    match i64_of(text) {
        Some(i) => int_json(i as int),
        None => match float_number(text) {
            Some(Some(number)) => JsonView::Number(number),
            Some(None) => JsonView::Text(text),
            None => JsonView::Text(text),
        },
    }
}

/// Binary data as JSON: base64, marked as such.
pub open spec fn binary_json(bytes: Seq<u8>) -> JsonView {
    JsonView::Text("base64:"@ + base64_text(bytes))
}

/// An attribute as plain JSON: lists and sets are arrays, and maps are objects.
pub open spec fn json_of(av: AvView, surface: Surface) -> JsonView
    decreases av,
{
    match av {
        AvView::S(s) => JsonView::Text(s),
        AvView::N(n) => number_json(n),
        AvView::Bool(b) => JsonView::Bool(b),
        AvView::Null(_) => JsonView::Null,
        AvView::B(bytes) => binary_json(bytes),
        AvView::Ss(list) => JsonView::Array(list.map_values(|s: Seq<char>| JsonView::Text(s))),
        AvView::Ns(list) => match surface {
            Surface::Command => JsonView::Array(list.map_values(|n: Seq<char>| number_json(n))),
            Surface::Library => JsonView::Array(
                list.map_values(|n: Seq<char>| JsonView::Text(n)),
            ),
        },
        AvView::Bs(list) => JsonView::Array(list.map_values(|b: Seq<u8>| binary_json(b))),
        AvView::L(items) => JsonView::Array(
            Seq::new(
                items.len(),
                |i: int|
                    if 0 <= i < items.len() {
                        json_of(items[i], surface)
                    } else {
                        JsonView::Null
                    },
            ),
        ),
        AvView::M(fields) => JsonView::Object(
            Map::new(
                |k: Seq<char>| fields.contains_key(k),
                |k: Seq<char>|
                    if fields.contains_key(k) {
                        json_of(fields[k], surface)
                    } else {
                        JsonView::Null
                    },
            ),
        ),
        AvView::Unknown => match surface {
            Surface::Command => JsonView::Null,
            Surface::Library => JsonView::Text("Unknown"@),
        },
    }
}

/// The attributes of an item as the fields of a JSON object.
pub open spec fn fields_of(item: Map<Seq<char>, AvView>, surface: Surface) -> Map<
    Seq<char>,
    JsonView,
> {
    Map::new(|k: Seq<char>| item.contains_key(k), |k: Seq<char>| json_of(item[k], surface))
}

/// No number in the value is a whole number that an `i64` cannot hold.
pub open spec fn fits(json: JsonView) -> bool
    decreases json,
{
    match json {
        JsonView::Number(n) => is_whole(n) ==> i64_of(n) is Some,
        JsonView::Array(items) => forall|i: int|
            0 <= i < items.len() ==> fits(#[trigger] items[i]),
        JsonView::Object(fields) => forall|k: Seq<char>|
            fields.contains_key(k) ==> fits(#[trigger] fields[k]),
        _ => true,
    }
}

/// An attribute that plain JSON can write: no set, no number that JSON would write in another way,
/// no text that looks like binary data.
pub open spec fn writable(av: AvView) -> bool
    decreases av,
{
    match av {
        AvView::S(s) => text_av(s) is S,
        AvView::N(n) => number_json(n) == JsonView::Number(n),
        AvView::Bool(_) => true,
        AvView::Null(b) => b,
        AvView::B(_) => true,
        AvView::L(items) => forall|i: int| 0 <= i < items.len() ==> writable(#[trigger] items[i]),
        AvView::M(fields) => forall|k: Seq<char>|
            fields.contains_key(k) ==> writable(#[trigger] fields[k]),
        _ => false,
    }
}

/// What is known of the numbers and the base64 in a value that was read.
spec fn genuine(json: JsonView) -> bool
    decreases json,
{
    match json {
        JsonView::Number(n) => {
            &&& i64_of(n) matches Some(i) ==> int_json(i as int) == JsonView::Number(n)
            &&& !is_whole(n) ==> float_number(n) == Some(Some(n))
        },
        JsonView::Text(s) => after_head(s, "base64:"@) matches Some(code) ==> (base64_bytes(
            code,
        ) matches Some(bytes) ==> base64_text(bytes) == code),
        JsonView::Array(items) => forall|i: int|
            0 <= i < items.len() ==> genuine(#[trigger] items[i]),
        JsonView::Object(fields) => forall|k: Seq<char>|
            fields.contains_key(k) ==> genuine(#[trigger] fields[k]),
        _ => true,
    }
}

/// What is known of the binary data in an attribute that was shown.
spec fn decodable(av: AvView) -> bool
    decreases av,
{
    match av {
        AvView::B(bytes) => base64_bytes(base64_text(bytes)) == Some(bytes),
        AvView::L(items) => forall|i: int| 0 <= i < items.len() ==> decodable(#[trigger] items[i]),
        AvView::M(fields) => forall|k: Seq<char>|
            fields.contains_key(k) ==> decodable(#[trigger] fields[k]),
        _ => true,
    }
}

proof fn lemma_genuine_items(items: Seq<JsonView>)
    requires
        forall|i: int| 0 <= i < items.len() ==> genuine(#[trigger] items[i]),
    ensures
        genuine(JsonView::Array(items)),
{
}

proof fn lemma_decodable_items(items: Seq<AvView>)
    requires
        forall|i: int| 0 <= i < items.len() ==> decodable(#[trigger] items[i]),
    ensures
        decodable(AvView::L(items)),
{
}

/// What was written comes back.
proof fn lemma_json_comes_back(json: JsonView, surface: Surface)
    requires
        genuine(json),
        fits(json),
    ensures
        json_of(av_of(json), surface) == json,
    decreases json,
{
    match json {
        JsonView::Text(s) => {
            if let Some(code) = after_head(s, "base64:"@) {
                assert(s =~= "base64:"@ + code);
            }
        },
        JsonView::Array(items) => {
            assert forall|i: int| 0 <= i < items.len() implies json_of(
                av_of(#[trigger] items[i]),
                surface,
            ) == items[i] by {
                lemma_json_comes_back(items[i], surface);
            }
            assert(json_of(av_of(json), surface)->Array_0 =~= items);
        },
        JsonView::Object(fields) => {
            assert forall|k: Seq<char>| fields.contains_key(k) implies json_of(
                av_of(#[trigger] fields[k]),
                surface,
            ) == fields[k] by {
                lemma_json_comes_back(fields[k], surface);
            }
            assert(json_of(av_of(json), surface)->Object_0 =~= fields);
        },
        _ => {},
    }
}

/// What was read can be written.
proof fn lemma_av_comes_back(av: AvView, surface: Surface)
    requires
        decodable(av),
        writable(av),
    ensures
        av_of(json_of(av, surface)) == av,
    decreases av,
{
    match av {
        AvView::B(bytes) => {
            let text = "base64:"@ + base64_text(bytes);
            let n = "base64:"@.len() as int;
            assert(text.subrange(0, n) =~= "base64:"@);
            assert(text.skip(n) =~= base64_text(bytes));
        },
        AvView::L(items) => {
            assert forall|i: int| 0 <= i < items.len() implies av_of(
                json_of(#[trigger] items[i], surface),
            ) == items[i] by {
                lemma_av_comes_back(items[i], surface);
            }
            assert(av_of(json_of(av, surface))->L_0 =~= items);
        },
        AvView::M(fields) => {
            assert forall|k: Seq<char>| fields.contains_key(k) implies av_of(
                json_of(#[trigger] fields[k], surface),
            ) == fields[k] by {
                lemma_av_comes_back(fields[k], surface);
            }
            assert(av_of(json_of(av, surface))->M_0 =~= fields);
        },
        _ => {},
    }
}

/// One more field of an object is one more attribute of an item.
proof fn lemma_item_of_insert(fields: Map<Seq<char>, JsonView>, k: Seq<char>, value: JsonView)
    ensures
        item_of(fields.insert(k, value)) == item_of(fields).insert(k, av_of(value)),
{
    assert(item_of(fields.insert(k, value)) =~= item_of(fields).insert(k, av_of(value)));
}

/// One more attribute of an item is one more field of an object.
proof fn lemma_fields_of_insert(
    item: Map<Seq<char>, AvView>,
    k: Seq<char>,
    av: AvView,
    surface: Surface,
)
    ensures
        fields_of(item.insert(k, av), surface) == fields_of(item, surface).insert(
            k,
            json_of(av, surface),
        ),
{
    assert(fields_of(item.insert(k, av), surface) =~= fields_of(item, surface).insert(
        k,
        json_of(av, surface),
    ));
}

/// A text as an attribute.
fn text_attribute(text: &str) -> (av: AttributeValue)
    ensures
        av@ == text_av(text@),
        genuine(JsonView::Text(text@)),
{
    if let Some(code) = strip_prefix(text, "base64:") {
        if let Some(bytes) = decode_base64(code) {
            return AttributeValue::B(bytes);
        }
    }
    AttributeValue::S(text.to_owned())
}

/// Plain JSON as an attribute.
fn convert(json: &Json) -> (av: AttributeValue)
    ensures
        av@ == av_of(json@),
        genuine(json@),
    decreases json,
{
    match json {
        Json::Null => AttributeValue::Null(true),
        Json::Bool(b) => AttributeValue::Bool(*b),
        Json::Number(n) => AttributeValue::N(write_number(n)),
        Json::Text(s) => text_attribute(s.as_str()),
        Json::Array(items) => {
            let mut out: Vec<AttributeValue> = Vec::new();
            let mut i: usize = 0;
            let ghost whole = av_of(json@)->L_0;
            while i < items.len()
                invariant
                    i <= items@.len(),
                    *json == Json::Array(*items),
                    whole == av_of(json@)->L_0,
                    whole.len() == items@.len(),
                    list_view(out@) == whole.take(i as int),
                    forall|j: int| 0 <= j < i ==> genuine(#[trigger] items_view(items@)[j]),
                decreases items@.len() - i,
            {
                assert(decreases_to!(json => json->Array_0));
                assert(decreases_to!(json->Array_0 => json->Array_0@[i as int]));
                let item = convert(&items[i]);
                proof {
                    lemma_list_push(out@, item);
                    assert(items_view(items@)[i as int] == items@[i as int]@);
                    assert(whole[i as int] == av_of(items_view(items@)[i as int]));
                    assert(whole.take(i + 1) =~= whole.take(i as int).push(whole[i as int]));
                }
                out.push(item);
                i = i + 1;
            }
            proof {
                assert(whole.take(i as int) =~= whole);
                lemma_genuine_items(items_view(items@));
            }
            AttributeValue::L(out)
        },
        Json::Object(fields) => {
            let out = convert_fields(fields);
            proof {
                assert(av_of(json@)->M_0 =~= item_of(fields_view(fields@)));
            }
            AttributeValue::M(out)
        },
    }
}

/// The fields of a JSON object as the attributes of an item.
fn convert_fields(fields: &Vec<(String, Json)>) -> (out: Vec<(String, AttributeValue)>)
    ensures
        item_view(out@) == item_of(fields_view(fields@)),
        out@.len() == fields@.len(),
        genuine(JsonView::Object(fields_view(fields@))),
    decreases fields,
{
    let mut out: Vec<(String, AttributeValue)> = Vec::new();
    let mut i: usize = 0;
    assert(fields@.take(0) =~= Seq::<(String, Json)>::empty());
    assert(item_of(Map::empty()) =~= Map::empty());
    while i < fields.len()
        invariant
            i <= fields@.len(),
            out@.len() == i,
            item_view(out@) == item_of(fields_view(fields@.take(i as int))),
            forall|k: Seq<char>|
                fields_view(fields@.take(i as int)).contains_key(k) ==> genuine(
                    #[trigger] fields_view(fields@.take(i as int))[k],
                ),
        decreases fields@.len() - i,
    {
        proof {
            assert(decreases_to!(fields => fields@[i as int]));
            assert(decreases_to!(fields@[i as int] => fields@[i as int].1));
            assert(fields@.take(i + 1).drop_last() =~= fields@.take(i as int));
            lemma_item_of_insert(
                fields_view(fields@.take(i as int)),
                fields@[i as int].0@,
                fields@[i as int].1@,
            );
        }
        let ghost before = out@;
        out.push((fields[i].0.clone(), convert(&fields[i].1)));
        assert(out@.drop_last() =~= before);
        i = i + 1;
    }
    assert(fields@.take(i as int) =~= fields@);
    out
}

/// Plain JSON as an attribute. What was written comes back as it was when it is read, but for
/// whole numbers that an `i64` cannot hold.
pub fn json_to_attribute_value(v: &Json) -> (av: AttributeValue)
    ensures
        av@ == av_of(v@),
        forall|surface: Surface| fits(v@) ==> #[trigger] json_of(av@, surface) == v@,
{
    let av = convert(v);
    proof {
        assert forall|surface: Surface| fits(v@) implies #[trigger] json_of(av@, surface)
            == v@ by {
            lemma_json_comes_back(v@, surface);
        }
    }
    av
}

/// The fields of a JSON object as the attributes of an item. What was written comes back as it was
/// when it is read, but for whole numbers that an `i64` cannot hold.
pub fn json_obj_to_av_map(obj: &Vec<(String, Json)>) -> (item: Vec<(String, AttributeValue)>)
    ensures
        item@.len() == obj@.len(),
        item_view(item@) == item_of(fields_view(obj@)),
        forall|surface: Surface|
            fits(JsonView::Object(fields_view(obj@))) ==> #[trigger] fields_of(
                item_view(item@),
                surface,
            ) == fields_view(obj@),
{
    let item = convert_fields(obj);
    proof {
        let fields = fields_view(obj@);
        let whole = JsonView::Object(fields);
        assert forall|surface: Surface| fits(whole) implies #[trigger] fields_of(
            item_view(item@),
            surface,
        ) == fields by {
            lemma_json_comes_back(whole, surface);
            assert(fields_of(item_of(fields), surface) =~= json_of(
                av_of(whole),
                surface,
            )->Object_0);
        }
    }
    item
}

/// A stored number as JSON.
fn number_as_json(text: &str) -> (json: Json)
    ensures
        json@ == number_json(text@),
{
    match parse_i64(text) {
        Some(i) => Json::whole(i),
        None => match number_of_float(text) {
            Some(Some(number)) => Json::Number(number),
            Some(None) => Json::text(text),
            None => Json::text(text),
        },
    }
}

/// Binary data as JSON.
fn binary_as_json(bytes: &Vec<u8>) -> (json: Json)
    ensures
        json@ == binary_json(bytes@),
        decodable(AvView::B(bytes@)),
{
    Json::Text("base64:".to_owned().concat(encode_base64(bytes.as_slice()).as_str()))
}

/// The texts of a set as JSON, or as the numbers that they denote.
fn texts_as_json(list: &Vec<String>, numbers: bool) -> (items: Vec<Json>)
    ensures
        numbers ==> items_view(items@) == strings_view(list@).map_values(
            |n: Seq<char>| number_json(n),
        ),
        !numbers ==> items_view(items@) == strings_view(list@).map_values(
            |s: Seq<char>| JsonView::Text(s),
        ),
{
    let mut items: Vec<Json> = Vec::new();
    let mut i: usize = 0;
    let ghost whole = if numbers {
        strings_view(list@).map_values(|n: Seq<char>| number_json(n))
    } else {
        strings_view(list@).map_values(|s: Seq<char>| JsonView::Text(s))
    };
    while i < list.len()
        invariant
            i <= list@.len(),
            whole.len() == list@.len(),
            forall|j: int|
                0 <= j < list@.len() ==> #[trigger] whole[j] == if numbers {
                    number_json(list@[j]@)
                } else {
                    JsonView::Text(list@[j]@)
                },
            items_view(items@) == whole.take(i as int),
        decreases list@.len() - i,
    {
        let text = list[i].as_str();
        let item = if numbers {
            number_as_json(text)
        } else {
            Json::text(text)
        };
        proof {
            lemma_items_push(items@, item);
            assert(whole.take(i + 1) =~= whole.take(i as int).push(whole[i as int]));
        }
        items.push(item);
        i = i + 1;
    }
    assert(whole.take(i as int) =~= whole);
    items
}

/// The runs of bytes of a set as JSON.
fn blobs_as_json(list: &Vec<Vec<u8>>) -> (items: Vec<Json>)
    ensures
        items_view(items@) == blobs_view(list@).map_values(|b: Seq<u8>| binary_json(b)),
{
    let mut items: Vec<Json> = Vec::new();
    let mut i: usize = 0;
    let ghost whole = blobs_view(list@).map_values(|b: Seq<u8>| binary_json(b));
    while i < list.len()
        invariant
            i <= list@.len(),
            whole == blobs_view(list@).map_values(|b: Seq<u8>| binary_json(b)),
            items_view(items@) == whole.take(i as int),
        decreases list@.len() - i,
    {
        let item = binary_as_json(&list[i]);
        proof {
            lemma_items_push(items@, item);
            assert(whole.take(i + 1) =~= whole.take(i as int).push(whole[i as int]));
        }
        items.push(item);
        i = i + 1;
    }
    assert(whole.take(i as int) =~= whole);
    items
}

/// An attribute as plain JSON.
fn render(av: &AttributeValue, surface: Surface) -> (json: Json)
    ensures
        json@ == json_of(av@, surface),
        decodable(av@),
    decreases av,
{
    match av {
        AttributeValue::S(s) => Json::Text(s.clone()),
        AttributeValue::N(n) => number_as_json(n.as_str()),
        AttributeValue::Bool(b) => Json::Bool(*b),
        AttributeValue::Null(_) => Json::Null,
        AttributeValue::B(bytes) => binary_as_json(bytes),
        AttributeValue::Ss(list) => Json::Array(texts_as_json(list, false)),
        AttributeValue::Ns(list) => Json::Array(
            texts_as_json(list, matches!(surface, Surface::Command)),
        ),
        AttributeValue::Bs(list) => Json::Array(blobs_as_json(list)),
        AttributeValue::L(items) => {
            let mut out: Vec<Json> = Vec::new();
            let mut i: usize = 0;
            let ghost whole = json_of(av@, surface)->Array_0;
            while i < items.len()
                invariant
                    i <= items@.len(),
                    *av == AttributeValue::L(*items),
                    whole == json_of(av@, surface)->Array_0,
                    whole.len() == items@.len(),
                    items_view(out@) == whole.take(i as int),
                    forall|j: int| 0 <= j < i ==> decodable(#[trigger] list_view(items@)[j]),
                decreases items@.len() - i,
            {
                assert(decreases_to!(av => av->L_0));
                assert(decreases_to!(av->L_0 => av->L_0@[i as int]));
                let item = render(&items[i], surface);
                proof {
                    lemma_items_push(out@, item);
                    assert(list_view(items@)[i as int] == items@[i as int]@);
                    assert(whole[i as int] == json_of(list_view(items@)[i as int], surface));
                    assert(whole.take(i + 1) =~= whole.take(i as int).push(whole[i as int]));
                }
                out.push(item);
                i = i + 1;
            }
            proof {
                assert(whole.take(i as int) =~= whole);
                lemma_decodable_items(list_view(items@));
            }
            Json::Array(out)
        },
        AttributeValue::M(fields) => {
            let out = render_fields(fields, surface);
            proof {
                assert(json_of(av@, surface)->Object_0 =~= fields_of(item_view(fields@), surface));
            }
            Json::Object(out)
        },
        AttributeValue::Unknown => match surface {
            Surface::Command => Json::Null,
            Surface::Library => Json::text("Unknown"),
        },
    }
}

/// The attributes of an item as the fields of a JSON object.
fn render_fields(fields: &Vec<(String, AttributeValue)>, surface: Surface) -> (out: Vec<
    (String, Json),
>)
    ensures
        fields_view(out@) == fields_of(item_view(fields@), surface),
        decodable(AvView::M(item_view(fields@))),
    decreases fields,
{
    let mut out: Vec<(String, Json)> = Vec::new();
    let mut i: usize = 0;
    assert(fields@.take(0) =~= Seq::<(String, AttributeValue)>::empty());
    assert(fields_of(Map::empty(), surface) =~= Map::empty());
    while i < fields.len()
        invariant
            i <= fields@.len(),
            fields_view(out@) == fields_of(item_view(fields@.take(i as int)), surface),
            forall|k: Seq<char>|
                item_view(fields@.take(i as int)).contains_key(k) ==> decodable(
                    #[trigger] item_view(fields@.take(i as int))[k],
                ),
        decreases fields@.len() - i,
    {
        proof {
            assert(decreases_to!(fields => fields@[i as int]));
            assert(decreases_to!(fields@[i as int] => fields@[i as int].1));
            assert(fields@.take(i + 1).drop_last() =~= fields@.take(i as int));
            lemma_fields_of_insert(
                item_view(fields@.take(i as int)),
                fields@[i as int].0@,
                fields@[i as int].1@,
                surface,
            );
        }
        let ghost before = out@;
        out.push((fields[i].0.clone(), render(&fields[i].1, surface)));
        assert(out@.drop_last() =~= before);
        i = i + 1;
    }
    assert(fields@.take(i as int) =~= fields@);
    out
}

/// An attribute as plain JSON, on either surface. What plain JSON can write is written as it was
/// when it is sent back.
pub(crate) fn attribute_json(av: &AttributeValue, surface: Surface) -> (json: Json)
    ensures
        json@ == json_of(av@, surface),
        writable(av@) ==> av_of(json@) == av@,
{
    let json = render(av, surface);
    proof {
        if writable(av@) {
            lemma_av_comes_back(av@, surface);
        }
    }
    json
}

/// The attributes of an item as a JSON object, on either surface.
pub(crate) fn item_json(item: &Vec<(String, AttributeValue)>, surface: Surface) -> (json: Json)
    ensures
        json@ == JsonView::Object(fields_of(item_view(item@), surface)),
{
    Json::Object(render_fields(item, surface))
}

/// An attribute as the library shows it. What plain JSON can write is written as it was when it is
/// sent back.
pub fn attribute_value_to_json(v: &AttributeValue) -> (json: Json)
    ensures
        json@ == json_of(v@, Surface::Library),
        writable(v@) ==> av_of(json@) == v@,
{
    attribute_json(v, Surface::Library)
}

/// The attributes of an item as the library shows them.
pub fn ddb_item_to_json(m: &Vec<(String, AttributeValue)>) -> (json: Json)
    ensures
        json@ == JsonView::Object(fields_of(item_view(m@), Surface::Library)),
{
    item_json(m, Surface::Library)
}

/// Plain JSON as an attribute. What was written comes back as it was when it is read, but for
/// whole numbers that an `i64` cannot hold.
pub fn json_to_av(v: &Json) -> (av: AttributeValue)
    ensures
        av@ == av_of(v@),
        forall|surface: Surface| fits(v@) ==> #[trigger] json_of(av@, surface) == v@,
{
    json_to_attribute_value(v)
}

}
