//! Laws on reading options, and on the parts that answers are made of.
use vstd::prelude::*;
use vstd::string::*;

use crate::decimal::i64_of;
use crate::decimal::law_signed_decimal_reads_back;
use crate::json::fields_view;
use crate::json::int_json;
use crate::json::int_or_null;
use crate::json::items_view;
use crate::json::outcome;
use crate::json::text_or_empty;
use crate::json::text_or_null;
use crate::json::Json;
use crate::json::JsonView;
use crate::options::narrow_field;
use crate::options::needed;
use crate::options::opt_view;
use crate::options::present;
use crate::options::seen;
use crate::options::strings_view;
use crate::options::text_list;
use crate::options::texts_json;

verus! {

/// What an object says under a name is the value there, whatever it is; what it has no value for,
/// and what is no object, says nothing.
pub proof fn law_field(fields: Map<Seq<char>, JsonView>, other: JsonView, name: Seq<char>)
    requires
        !(other is Object),
    ensures
        JsonView::Object(fields).field(name) is Some <==> fields.dom().contains(name),
        fields.dom().contains(name) ==> JsonView::Object(fields).field(name) == Some(fields[name]),
        fields.dom().contains(name) ==> JsonView::Object(fields).at(name) == fields[name],
        !fields.dom().contains(name) ==> JsonView::Object(fields).at(name) == JsonView::Null,
        other.field(name) is None,
        other.at(name) == JsonView::Null,
{
}

/// A text, a truth value, a number, fields and items are read where just that kind of value is there
/// under the name, and as what they are.
pub proof fn law_typed_field(
    fields: Map<Seq<char>, JsonView>,
    other: JsonView,
    name: Seq<char>,
    value: JsonView,
)
    requires
        !(other is Object),
    ensures
        ({
            let opts = JsonView::Object(fields.insert(name, value));
            let bare = JsonView::Object(fields.remove(name));
            &&& opts.text_field(name) == match value {
                JsonView::Text(text) => Some(text),
                _ => None,
            }
            &&& opts.bool_field(name) == match value {
                JsonView::Bool(b) => Some(b),
                _ => None,
            }
            &&& opts.int_field(name) == match value {
                JsonView::Number(text) => i64_of(text),
                _ => None,
            }
            &&& opts.fields_field(name) == match value {
                JsonView::Object(inner) => Some(inner),
                _ => None,
            }
            &&& opts.items_field(name) == match value {
                JsonView::Array(items) => Some(items),
                _ => None,
            }
            &&& bare.text_field(name) is None && other.text_field(name) is None
            &&& bare.bool_field(name) is None && other.bool_field(name) is None
            &&& bare.int_field(name) is None && other.int_field(name) is None
            &&& bare.fields_field(name) is None && other.fields_field(name) is None
            &&& bare.items_field(name) is None && other.items_field(name) is None
        }),
{
}

/// A second name counts only where there is nothing at all under the first.
pub proof fn law_second_name(
    fields: Map<Seq<char>, JsonView>,
    name: Seq<char>,
    alias: Seq<char>,
    value: JsonView,
    second: JsonView,
)
    requires
        name != alias,
    ensures
        JsonView::Object(fields.insert(alias, second).insert(name, value)).text_field_or(name, alias)
            == match value {
            JsonView::Text(text) => Some(text),
            _ => None,
        },
        JsonView::Object(fields.insert(alias, second).remove(name)).text_field_or(name, alias)
            == match second {
            JsonView::Text(text) => Some(text),
            _ => None,
        },
        JsonView::Object(fields.remove(alias).remove(name)).text_field_or(name, alias) is None,
{
}

/// A text that is needed is the one that is there, and its absence, or a value of another kind, is
/// told with the message.
pub proof fn law_needed(
    fields: Map<Seq<char>, JsonView>,
    name: Seq<char>,
    message: Seq<char>,
    value: JsonView,
)
    ensures
        needed(JsonView::Object(fields.insert(name, value)), name, message) == match value {
            JsonView::Text(text) => Ok::<Seq<char>, Seq<char>>(text),
            _ => Err(message),
        },
        needed(JsonView::Object(fields.remove(name)), name, message) == Err::<
            Seq<char>,
            Seq<char>,
        >(message),
{
}

/// A number for a service keeps its value where that has 32 bits.
pub proof fn law_narrow_field(fields: Map<Seq<char>, JsonView>, name: Seq<char>, i: i32)
    ensures
        narrow_field(JsonView::Object(fields.insert(name, int_json(i as int))), name) == Some(i),
        narrow_field(JsonView::Object(fields.remove(name)), name) is None,
{
    law_signed_decimal_reads_back(i as i64);
    let opts = JsonView::Object(fields.insert(name, int_json(i as int)));
    assert(opts.int_field(name) == Some(i as i64));
}

/// Texts, and numbers, are shown as what they are; what is missing is shown as null, or as the empty
/// text.
pub proof fn law_parts_of_answers(text: Seq<char>, i: i64)
    ensures
        text_or_null(Some(text)) == JsonView::Text(text),
        text_or_null(None) == JsonView::Null,
        text_or_empty(Some(text)) == JsonView::Text(text),
        text_or_empty(None) == JsonView::Text(Seq::empty()),
        int_or_null(Some(i as int)) == int_json(i as int),
        int_or_null(None) == JsonView::Null,
        int_json(i as int).whole() == Some(i),
        int_json(i as int) is Number,
{
    law_signed_decimal_reads_back(i);
}

/// A list of texts in the options: those of an array of texts, in order; a single text; none for
/// null. Any other array, and any other value, is refused.
pub proof fn law_text_list(items: Seq<JsonView>, text: Seq<char>, b: bool, n: Seq<char>)
    ensures
        match text_list(JsonView::Array(items)) {
            Ok(list) => {
                &&& list.len() == items.len()
                &&& forall|i: int|
                    0 <= i < items.len() ==> #[trigger] items[i] == JsonView::Text(list[i])
            },
            Err(message) => {
                &&& message == "non-string in array"@
                &&& exists|i: int| 0 <= i < items.len() && !(#[trigger] items[i] is Text)
            },
        },
        text_list(JsonView::Text(text)) == Ok::<Seq<Seq<char>>, Seq<char>>(seq![text]),
        text_list(JsonView::Null) == Ok::<Seq<Seq<char>>, Seq<char>>(Seq::empty()),
        text_list(JsonView::Bool(b)) == Err::<Seq<Seq<char>>, Seq<char>>(
            "expected string or array of strings"@,
        ),
        text_list(JsonView::Number(n)) == Err::<Seq<Seq<char>>, Seq<char>>(
            "expected string or array of strings"@,
        ),
{
}

/// A list of texts is shown as an array of the same length, each text as it is and in its place.
pub proof fn law_texts_json(list: Seq<Seq<char>>)
    ensures
        texts_json(list) is Array,
        texts_json(list)->Array_0.len() == list.len(),
        forall|i: int|
            0 <= i < list.len() ==> #[trigger] texts_json(list)->Array_0[i] == JsonView::Text(list[i]),
{
}

/// Of a list in which texts are missing those that are there are kept, all of them and in order.
pub proof fn law_present(first: Seq<Option<String>>, text: String)
    ensures
        present(first.push(Some(text))) == present(first).push(text@),
        present(first.push(None)) == present(first),
        present(Seq::empty()) == Seq::<Seq<char>>::empty(),
{
    assert(first.push(Some(text)).drop_last() =~= first);
    assert(first.push(None::<String>).drop_last() =~= first);
}

/// Of fields that are listed by one name the last one counts, and the others are not touched.
pub proof fn law_later_field_counts(
    fields: Seq<(String, Json)>,
    name: String,
    value: Json,
    other: Seq<char>,
)
    ensures
        fields_view(fields.push((name, value))).contains_key(name@),
        fields_view(fields.push((name, value)))[name@] == value@,
        other != name@ ==> (fields_view(fields.push((name, value))).contains_key(other)
            <==> fields_view(fields).contains_key(other)),
        other != name@ && fields_view(fields).contains_key(other) ==> fields_view(
            fields.push((name, value)),
        )[other] == fields_view(fields)[other],
        fields_view(Seq::empty()) == Map::<Seq<char>, JsonView>::empty(),
{
    assert(fields.push((name, value)).drop_last() =~= fields);
}

/// The views of results, of lists and of values that may be missing leave nothing out.
pub proof fn law_views(
    text: String,
    list: Seq<String>,
    items: Seq<Json>,
    json: Json,
    message: String,
)
    ensures
        opt_view(Some(text)) == Some(text@),
        opt_view(None) == None::<Seq<char>>,
        strings_view(list).len() == list.len(),
        forall|i: int| 0 <= i < list.len() ==> #[trigger] strings_view(list)[i] == list[i]@,
        items_view(items).len() == items.len(),
        forall|i: int| 0 <= i < items.len() ==> #[trigger] items_view(items)[i] == items[i]@,
        outcome(Ok(json)) == Ok::<JsonView, Seq<char>>(json@),
        outcome(Err(message)) == Err::<JsonView, Seq<char>>(message@),
        seen(Ok::<String, String>(text)) == Ok::<Seq<char>, Seq<char>>(text@),
        seen(Err::<String, String>(message)) == Err::<Seq<char>, Seq<char>>(message@),
{
}

}
