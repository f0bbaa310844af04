//! Laws on attribute values and the JSON that they are shown as and written in.
use vstd::prelude::*;
use vstd::string::*;

use crate::attribute::av_of;
use crate::attribute::fields_of;
use crate::attribute::item_of;
use crate::attribute::item_view;
use crate::attribute::json_of;
use crate::attribute::AttributeValue;
use crate::attribute::AvView;
use crate::attribute::Surface;
use crate::bytes::base64_bytes;
use crate::bytes::base64_text;
use crate::decimal::i64_of;
use crate::decimal::law_signed_decimal_reads_back;
use crate::json::float_number;
use crate::json::JsonView;
use crate::text::after_head;

verus! {

/// A set of strings is shown as an array of the same length, each string character for character as
/// a text. So no member becomes a number, and two sets that are shown alike are alike.
pub proof fn law_string_set_is_shown(list: Seq<Seq<char>>, other: Seq<Seq<char>>, surface: Surface)
    ensures
        json_of(AvView::Ss(list), surface) is Array,
        json_of(AvView::Ss(list), surface)->Array_0.len() == list.len(),
        forall|i: int|
            0 <= i < list.len() ==> #[trigger] json_of(AvView::Ss(list), surface)->Array_0[i]
                == JsonView::Text(list[i]),
        json_of(AvView::Ss(list), surface) == json_of(AvView::Ss(other), surface) ==> list == other,
{
    let a = json_of(AvView::Ss(list), surface);
    let b = json_of(AvView::Ss(other), surface);
    if a == b {
        assert(a->Array_0.len() == list.len() && b->Array_0.len() == other.len());
        assert forall|i: int| 0 <= i < list.len() implies list[i] == other[i] by {
            assert(a->Array_0[i] == JsonView::Text(list[i]));
            assert(b->Array_0[i] == JsonView::Text(other[i]));
        }
        assert(list =~= other);
    }
}

/// Strings and truth values are shown as they are, and every null as null.
pub proof fn law_scalar_is_shown(text: Seq<char>, b: bool, surface: Surface)
    ensures
        json_of(AvView::S(text), surface) == JsonView::Text(text),
        json_of(AvView::Bool(b), surface) == JsonView::Bool(b),
        json_of(AvView::Null(b), surface) == JsonView::Null,
{
}

/// A number is shown as a number: the whole one that it denotes where that has 64 bits, else the one
/// that it is read as, where there is one. What cannot be shown as a number keeps its text.
pub proof fn law_number_is_shown(text: Seq<char>, surface: Surface)
    ensures
        match (i64_of(text), float_number(text)) {
            (Some(i), _) => json_of(AvView::N(text), surface).whole() == Some(i),
            (None, Some(Some(read))) => json_of(AvView::N(text), surface) == JsonView::Number(read),
            _ => json_of(AvView::N(text), surface) == JsonView::Text(text),
        },
{
    if let Some(i) = i64_of(text) {
        law_signed_decimal_reads_back(i);
    }
}

/// A set of numbers is shown as an array of the same length: in the library each number is the text
/// that was stored, and on the command line it is shown as it would be on its own.
pub proof fn law_number_set_is_shown(list: Seq<Seq<char>>)
    ensures
        json_of(AvView::Ns(list), Surface::Library) is Array,
        json_of(AvView::Ns(list), Surface::Library)->Array_0.len() == list.len(),
        json_of(AvView::Ns(list), Surface::Command) is Array,
        json_of(AvView::Ns(list), Surface::Command)->Array_0.len() == list.len(),
        forall|i: int|
            0 <= i < list.len() ==> #[trigger] json_of(
                AvView::Ns(list),
                Surface::Library,
            )->Array_0[i] == JsonView::Text(list[i]),
        forall|i: int|
            0 <= i < list.len() ==> #[trigger] json_of(
                AvView::Ns(list),
                Surface::Command,
            )->Array_0[i] == json_of(AvView::N(list[i]), Surface::Command),
{
}

/// Binary data is shown as `base64:` and its base64 text, on its own and in a set.
pub proof fn law_binary_is_shown(bytes: Seq<u8>, list: Seq<Seq<u8>>, surface: Surface)
    ensures
        json_of(AvView::B(bytes), surface) == JsonView::Text("base64:"@ + base64_text(bytes)),
        json_of(AvView::Bs(list), surface) is Array,
        json_of(AvView::Bs(list), surface)->Array_0.len() == list.len(),
        forall|i: int|
            0 <= i < list.len() ==> #[trigger] json_of(AvView::Bs(list), surface)->Array_0[i]
                == JsonView::Text("base64:"@ + base64_text(list[i])),
{
}

/// A list is shown as an array of the same length, and a map as an object with the same names; what
/// is inside is shown as it would be on its own.
pub proof fn law_nested_is_shown(
    items: Seq<AvView>,
    fields: Map<Seq<char>, AvView>,
    surface: Surface,
)
    ensures
        json_of(AvView::L(items), surface) is Array,
        json_of(AvView::L(items), surface)->Array_0.len() == items.len(),
        forall|i: int|
            0 <= i < items.len() ==> #[trigger] json_of(AvView::L(items), surface)->Array_0[i]
                == json_of(items[i], surface),
        json_of(AvView::M(fields), surface) is Object,
        json_of(AvView::M(fields), surface)->Object_0.dom() == fields.dom(),
        forall|k: Seq<char>|
            fields.contains_key(k) ==> #[trigger] json_of(AvView::M(fields), surface)->Object_0[k]
                == json_of(fields[k], surface),
        fields_of(fields, surface).dom() == fields.dom(),
        forall|k: Seq<char>|
            fields.contains_key(k) ==> #[trigger] fields_of(fields, surface)[k] == json_of(
                fields[k],
                surface,
            ),
{
    assert(json_of(AvView::M(fields), surface)->Object_0.dom() =~= fields.dom());
    assert(fields_of(fields, surface).dom() =~= fields.dom());
}

/// What is not known is named in the library, and dropped on the command line.
pub proof fn law_unknown_is_shown()
    ensures
        json_of(AvView::Unknown, Surface::Library) == JsonView::Text("Unknown"@),
        json_of(AvView::Unknown, Surface::Command) == JsonView::Null,
{
}

/// Null, truth values and numbers are written as attributes of their own types, and a number keeps
/// its text.
pub proof fn law_scalar_is_written(b: bool, n: Seq<char>)
    ensures
        av_of(JsonView::Null) == AvView::Null(true),
        av_of(JsonView::Bool(b)) == AvView::Bool(b),
        av_of(JsonView::Number(n)) == AvView::N(n),
{
}

/// A text is written as a string, character for character, unless it is `base64:` and base64, which
/// is written as the binary data that it stands for.
pub proof fn law_text_is_written(text: Seq<char>, code: Seq<char>)
    ensures
        av_of(JsonView::Text("base64:"@ + code)) == match base64_bytes(code) {
            Some(bytes) => AvView::B(bytes),
            None => AvView::S("base64:"@ + code),
        },
        (forall|rest: Seq<char>| text != #[trigger] ("base64:"@ + rest)) ==> av_of(
            JsonView::Text(text),
        ) == AvView::S(text),
{
    let head = "base64:"@;
    let whole = head + code;
    assert(whole.subrange(0, head.len() as int) =~= head);
    assert(whole.skip(head.len() as int) =~= code);
    if let Some(rest) = after_head(text, head) {
        assert(text =~= head + rest) by {
            assert forall|i: int| 0 <= i < head.len() implies text[i] == head[i] by {
                assert(text.subrange(0, head.len() as int)[i] == text[i]);
            }
        }
    }
}

/// An array is written as a list of the same length, and an object as a map with the same names; what
/// is inside is written as it would be on its own.
pub proof fn law_nested_is_written(items: Seq<JsonView>, fields: Map<Seq<char>, JsonView>)
    ensures
        av_of(JsonView::Array(items)) is L,
        av_of(JsonView::Array(items))->L_0.len() == items.len(),
        forall|i: int|
            0 <= i < items.len() ==> #[trigger] av_of(JsonView::Array(items))->L_0[i] == av_of(
                items[i],
            ),
        av_of(JsonView::Object(fields)) is M,
        av_of(JsonView::Object(fields))->M_0.dom() == fields.dom(),
        forall|k: Seq<char>|
            fields.contains_key(k) ==> #[trigger] av_of(JsonView::Object(fields))->M_0[k] == av_of(
                fields[k],
            ),
        item_of(fields).dom() == fields.dom(),
        forall|k: Seq<char>|
            fields.contains_key(k) ==> #[trigger] item_of(fields)[k] == av_of(fields[k]),
{
    assert(av_of(JsonView::Object(fields))->M_0.dom() =~= fields.dom());
    assert(item_of(fields).dom() =~= fields.dom());
}

/// Of attributes that are listed by one name the last one counts, and the others are not touched.
pub proof fn law_later_attribute_counts(
    item: Seq<(String, AttributeValue)>,
    name: String,
    value: AttributeValue,
    other: Seq<char>,
)
    ensures
        item_view(item.push((name, value))).contains_key(name@),
        item_view(item.push((name, value)))[name@] == value@,
        other != name@ ==> (item_view(item.push((name, value))).contains_key(other) <==> item_view(
            item,
        ).contains_key(other)),
        other != name@ && item_view(item).contains_key(other) ==> item_view(
            item.push((name, value)),
        )[other] == item_view(item)[other],
        item_view(Seq::empty()) == Map::<Seq<char>, AvView>::empty(),
{
    assert(item.push((name, value)).drop_last() =~= item);
}

/// The view of an attribute keeps its type and what it holds.
pub proof fn law_attribute_view(
    text: String,
    b: bool,
    bytes: Vec<u8>,
    texts: Vec<String>,
    blobs: Vec<Vec<u8>>,
    items: Vec<AttributeValue>,
    fields: Vec<(String, AttributeValue)>,
)
    ensures
        AttributeValue::S(text)@ == AvView::S(text@),
        AttributeValue::N(text)@ == AvView::N(text@),
        AttributeValue::Bool(b)@ == AvView::Bool(b),
        AttributeValue::Null(b)@ == AvView::Null(b),
        AttributeValue::B(bytes)@ == AvView::B(bytes@),
        AttributeValue::Ss(texts)@ is Ss,
        AttributeValue::Ns(texts)@ is Ns,
        AttributeValue::Ss(texts)@->Ss_0.len() == texts@.len(),
        AttributeValue::Ns(texts)@->Ns_0.len() == texts@.len(),
        forall|i: int|
            #![trigger texts@[i]]
            0 <= i < texts@.len() ==> AttributeValue::Ss(texts)@->Ss_0[i] == texts@[i]@
                && AttributeValue::Ns(texts)@->Ns_0[i] == texts@[i]@,
        AttributeValue::Bs(blobs)@ is Bs,
        AttributeValue::Bs(blobs)@->Bs_0.len() == blobs@.len(),
        forall|i: int|
            0 <= i < blobs@.len() ==> AttributeValue::Bs(blobs)@->Bs_0[i] == (
            #[trigger] blobs@[i])@,
        AttributeValue::L(items)@ is L,
        AttributeValue::L(items)@->L_0.len() == items@.len(),
        forall|i: int|
            0 <= i < items@.len() ==> AttributeValue::L(items)@->L_0[i] == (#[trigger] items@[i])@,
        AttributeValue::M(fields)@ == AvView::M(item_view(fields@)),
        AttributeValue::Unknown@ == AvView::Unknown,
{
}

}
