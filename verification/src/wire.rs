//! JSON text: reading it into values and writing values as text, by way of `serde_json`.
use vstd::prelude::*;
use vstd::string::*;

use crate::json::fields_view;
use crate::json::items_view;
use crate::json::number_text;
use crate::json::outcome;
use crate::json::Json;
use crate::json::JsonView;
use crate::split::lacks;

verus! {

/// The value type of `serde_json`, a tree of nested collections.
#[verifier::external_type_specification]
#[verifier::external_body]
pub struct ExValue(serde_json::Value);

/// What a value of `serde_json` holds.
pub uninterp spec fn value_json(value: serde_json::Value) -> JsonView;

/// What `serde_json::from_str` makes of a text: a value, or the message of its error.
pub uninterp spec fn parsed_json(text: Seq<char>) -> Result<JsonView, Seq<char>>;

/// What `serde_json::from_slice` makes of bytes, if they are a JSON text.
pub uninterp spec fn parsed_json_bytes(bytes: Seq<u8>) -> Option<JsonView>;

/// The compact text that `serde_json` writes a value as.
pub uninterp spec fn json_text(json: JsonView) -> Seq<char>;

/// A value of `serde_json` taken apart by one level.
pub enum Opened<'a> {
    Null,
    Bool(bool),
    Number(serde_json::Number),
    Text(String),
    Array(&'a Vec<serde_json::Value>),
    Object(Vec<(&'a String, &'a serde_json::Value)>),
}

/// A value of `serde_json` about to be put together from its parts.
pub enum Parts {
    Null,
    Bool(bool),
    Number(serde_json::Number),
    Text(String),
    Array(Vec<serde_json::Value>),
    Object(Vec<(String, serde_json::Value)>),
}

/// What named values hold, by name.
pub open spec fn entries_json(entries: Seq<(Seq<char>, JsonView)>) -> Map<Seq<char>, JsonView>
    decreases entries.len(),
{
    if entries.len() == 0 {
        Map::empty()
    } else {
        entries_json(entries.drop_last()).insert(entries.last().0, entries.last().1)
    }
}

/// What a value that was taken apart holds.
pub open spec fn opened_json(opened: Opened) -> JsonView {
    match opened {
        Opened::Null => JsonView::Null,
        Opened::Bool(b) => JsonView::Bool(b),
        Opened::Number(n) => JsonView::Number(number_text(n)),
        Opened::Text(s) => JsonView::Text(s@),
        Opened::Array(items) => JsonView::Array(items@.map_values(|v: serde_json::Value| value_json(v))),
        Opened::Object(entries) => JsonView::Object(
            entries_json(
                entries@.map_values(
                    |e: (&String, &serde_json::Value)| ((*e.0)@, value_json(*e.1)),
                ),
            ),
        ),
    }
}

/// What a value put together from these parts holds.
pub open spec fn parts_json(parts: Parts) -> JsonView {
    match parts {
        Parts::Null => JsonView::Null,
        Parts::Bool(b) => JsonView::Bool(b),
        Parts::Number(n) => JsonView::Number(number_text(n)),
        Parts::Text(s) => JsonView::Text(s@),
        Parts::Array(items) => JsonView::Array(items@.map_values(|v: serde_json::Value| value_json(v))),
        Parts::Object(entries) => JsonView::Object(
            entries_json(
                entries@.map_values(|e: (String, serde_json::Value)| (e.0@, value_json(e.1))),
            ),
        ),
    }
}

/// The six variants of `serde_json::Value`, with what each holds. An object lists each of its
/// names once (`serde_json::Map::iter`).
#[verifier::external_body]
fn open_value<'a>(value: &'a serde_json::Value) -> (opened: Opened<'a>)
    ensures
        opened_json(opened) == value_json(*value),
        opened matches Opened::Object(entries) ==> forall|i: int, j: int|
            0 <= i < j < entries@.len() ==> #[trigger] (*entries@[i].0)@ != #[trigger] (
            *entries@[j].0)@,
{
    match value {
        serde_json::Value::Null => Opened::Null,
        serde_json::Value::Bool(b) => Opened::Bool(*b),
        serde_json::Value::Number(n) => Opened::Number(n.clone()),
        serde_json::Value::String(s) => Opened::Text(s.clone()),
        serde_json::Value::Array(items) => Opened::Array(items),
        serde_json::Value::Object(fields) => Opened::Object(fields.iter().collect()),
    }
}

/// The six variants of `serde_json::Value`, made from what each is to hold. Of two entries of
/// one name the later one stays (`serde_json::Map` collects into a `BTreeMap`).
#[verifier::external_body]
fn build_value(parts: Parts) -> (value: serde_json::Value)
    ensures
        value_json(value) == parts_json(parts),
{
    match parts {
        Parts::Null => serde_json::Value::Null,
        Parts::Bool(b) => serde_json::Value::Bool(b),
        Parts::Number(n) => serde_json::Value::Number(n),
        Parts::Text(s) => serde_json::Value::String(s),
        Parts::Array(items) => serde_json::Value::Array(items),
        Parts::Object(entries) => serde_json::Value::Object(entries.into_iter().collect()),
    }
}

/// `serde_json::Number::clone` copies the number.
#[verifier::external_body]
pub(crate) fn copy_number(number: &serde_json::Number) -> (copy: serde_json::Number)
    ensures
        copy == *number,
{
    number.clone()
}

/// `serde_json::from_str`: the name stands for the value that a text denotes, or for the message
/// of the error.
#[verifier::external_body]
fn value_of_text(text: &str) -> (value: Result<serde_json::Value, String>)
    ensures
        match value {
            Ok(v) => parsed_json(text@) == Ok::<JsonView, Seq<char>>(value_json(v)),
            Err(message) => parsed_json(text@) == Err::<JsonView, Seq<char>>(message@),
        },
{
    match serde_json::from_str(text) {
        Ok(value) => Ok(value),
        Err(error) => Err(error.to_string()),
    }
}

/// `serde_json::from_slice`: the name stands for the value that the bytes denote, if they denote
/// one.
#[verifier::external_body]
fn value_of_bytes(bytes: &[u8]) -> (value: Option<serde_json::Value>)
    ensures
        match value {
            Some(v) => parsed_json_bytes(bytes@) == Some(value_json(v)),
            None => parsed_json_bytes(bytes@) is None,
        },
{
    serde_json::from_slice(bytes).ok()
}

/// `serde_json::Value::to_string`: the name stands for the compact text of a value, in which the
/// fields of an object stand in the order of their names. Newlines in texts are escaped, and none
/// are added.
#[verifier::external_body]
fn text_of_value(value: &serde_json::Value) -> (text: String)
    ensures
        text@ == json_text(value_json(*value)),
        lacks(text@, '\n'),
{
    value.to_string()
}

/// Distinct names keep their values.
proof fn lemma_entry(entries: Seq<(Seq<char>, JsonView)>, i: int)
    requires
        0 <= i < entries.len(),
        forall|a: int, b: int|
            0 <= a < b < entries.len() ==> #[trigger] entries[a].0 != #[trigger] entries[b].0,
    ensures
        entries_json(entries).contains_key(entries[i].0),
        entries_json(entries)[entries[i].0] == entries[i].1,
    decreases entries.len(),
{
    if i < entries.len() - 1 {
        let init = entries.drop_last();
        assert(init[i] == entries[i]);
        assert forall|a: int, b: int| 0 <= a < b < init.len() implies #[trigger] init[a].0
            != #[trigger] init[b].0 by {
            assert(init[a] == entries[a] && init[b] == entries[b]);
        }
        lemma_entry(init, i);
        assert(entries[i].0 != entries.last().0);
    }
}

proof fn lemma_smaller_item(json: JsonView, i: int)
    requires
        json is Array,
        0 <= i < json->Array_0.len(),
    ensures
        decreases_to!(json => json->Array_0[i]),
{
    assert(decreases_to!(json => json->Array_0));
    assert(decreases_to!(json->Array_0 => json->Array_0[i]));
}

proof fn lemma_smaller_field(json: JsonView, name: Seq<char>)
    requires
        json is Object,
        json->Object_0.contains_key(name),
    ensures
        decreases_to!(json => json->Object_0[name]),
{
}

/// Reads a value of `serde_json`.
fn json_of_value(value: &serde_json::Value) -> (json: Json)
    ensures
        json@ == value_json(*value),
    decreases value_json(*value),
{
    match open_value(value) {
        Opened::Null => Json::Null,
        Opened::Bool(b) => Json::Bool(b),
        Opened::Number(n) => Json::Number(n),
        Opened::Text(s) => Json::Text(s),
        Opened::Array(values) => {
            let mut items: Vec<Json> = Vec::new();
            let mut i: usize = 0;
            let ghost views = values@.map_values(|v: serde_json::Value| value_json(v));
            while i < values.len()
                invariant
                    i <= values@.len(),
                    views == values@.map_values(|v: serde_json::Value| value_json(v)),
                    value_json(*value) == JsonView::Array(views),
                    items_view(items@) == views.take(i as int),
                decreases values@.len() - i,
            {
                proof {
                    assert(views[i as int] == value_json(values@[i as int]));
                    lemma_smaller_item(value_json(*value), i as int);
                }
                let ghost before = items@;
                items.push(json_of_value(&values[i]));
                assert(items_view(items@) =~= items_view(before).push(views[i as int]));
                assert(views.take(i + 1) =~= views.take(i as int).push(views[i as int]));
                i = i + 1;
            }
            assert(views.take(i as int) =~= views);
            Json::Array(items)
        },
        Opened::Object(entries) => {
            let mut fields: Vec<(String, Json)> = Vec::new();
            let mut i: usize = 0;
            let ghost views = entries@.map_values(
                |e: (&String, &serde_json::Value)| ((*e.0)@, value_json(*e.1)),
            );
            assert forall|a: int, b: int| 0 <= a < b < views.len() implies #[trigger] views[a].0
                != #[trigger] views[b].0 by {
                assert((*entries@[a].0)@ != (*entries@[b].0)@);
            }
            assert(views.take(0) =~= Seq::<(Seq<char>, JsonView)>::empty());
            while i < entries.len()
                invariant
                    i <= entries@.len(),
                    views == entries@.map_values(
                        |e: (&String, &serde_json::Value)| ((*e.0)@, value_json(*e.1)),
                    ),
                    forall|a: int, b: int|
                        0 <= a < b < views.len() ==> #[trigger] views[a].0 != #[trigger] views[b].0,
                    value_json(*value) == JsonView::Object(entries_json(views)),
                    fields_view(fields@) == entries_json(views.take(i as int)),
                decreases entries@.len() - i,
            {
                let (name, inner) = entries[i];
                proof {
                    lemma_entry(views, i as int);
                    assert(views[i as int] == (name@, value_json(*inner)));
                    lemma_smaller_field(value_json(*value), name@);
                }
                let ghost before = fields@;
                fields.push((name.clone(), json_of_value(inner)));
                proof {
                    assert(fields@.drop_last() =~= before);
                    assert(views.take(i + 1).drop_last() =~= views.take(i as int));
                }
                i = i + 1;
            }
            assert(views.take(i as int) =~= views);
            Json::Object(fields)
        },
    }
}

/// Makes a value of `serde_json`.
fn value_of_json(json: &Json) -> (value: serde_json::Value)
    ensures
        value_json(value) == json@,
    decreases json,
{
    match json {
        Json::Null => build_value(Parts::Null),
        Json::Bool(b) => build_value(Parts::Bool(*b)),
        Json::Number(n) => build_value(Parts::Number(copy_number(n))),
        Json::Text(s) => build_value(Parts::Text(s.clone())),
        Json::Array(items) => {
            let mut values: Vec<serde_json::Value> = Vec::new();
            let mut i: usize = 0;
            while i < items.len()
                invariant
                    i <= items@.len(),
                    *json == Json::Array(*items),
                    values@.map_values(|v: serde_json::Value| value_json(v)) == items_view(
                        items@,
                    ).take(i as int),
                decreases items@.len() - i,
            {
                let ghost before = values@.map_values(|v: serde_json::Value| value_json(v));
                let ghost whole = items_view(items@);
                assert(decreases_to!(json => json->Array_0));
                assert(decreases_to!(json->Array_0 => json->Array_0@[i as int]));
                let value = value_of_json(&items[i]);
                values.push(value);
                proof {
                    assert(values@.map_values(|v: serde_json::Value| value_json(v))
                        =~= before.push(value_json(value)));
                    assert(whole.take(i + 1) =~= whole.take(i as int).push(whole[i as int]));
                }
                i = i + 1;
            }
            assert(items_view(items@).take(i as int) =~= items_view(items@));
            build_value(Parts::Array(values))
        },
        Json::Object(fields) => {
            let mut entries: Vec<(String, serde_json::Value)> = Vec::new();
            let mut i: usize = 0;
            assert(fields@.take(0) =~= Seq::<(String, Json)>::empty());
            while i < fields.len()
                invariant
                    i <= fields@.len(),
                    *json == Json::Object(*fields),
                    entries_json(
                        entries@.map_values(
                            |e: (String, serde_json::Value)| (e.0@, value_json(e.1)),
                        ),
                    ) == fields_view(fields@.take(i as int)),
                decreases fields@.len() - i,
            {
                let ghost before = entries@.map_values(
                    |e: (String, serde_json::Value)| (e.0@, value_json(e.1)),
                );
                proof {
                    let list = json->Object_0;
                    assert(decreases_to!(json => list));
                    assert(decreases_to!(list => list@[i as int]));
                    assert(decreases_to!(list@[i as int] => list@[i as int].1));
                }
                let value = value_of_json(&fields[i].1);
                entries.push((fields[i].0.clone(), value));
                proof {
                    let after = entries@.map_values(
                        |e: (String, serde_json::Value)| (e.0@, value_json(e.1)),
                    );
                    assert(after.drop_last() =~= before);
                    assert(fields@.take(i + 1).drop_last() =~= fields@.take(i as int));
                }
                i = i + 1;
            }
            assert(fields@.take(i as int) =~= fields@);
            build_value(Parts::Object(entries))
        },
    }
}

/// Reads a JSON text.
pub fn parse_json(text: &str) -> (json: Result<Json, String>)
    ensures
        outcome(json) == parsed_json(text@),
{
    match value_of_text(text) {
        Ok(value) => Ok(json_of_value(&value)),
        Err(message) => Err(message),
    }
}

/// Reads bytes as a JSON text.
pub fn parse_json_bytes(bytes: &[u8]) -> (json: Option<Json>)
    ensures
        match json {
            Some(value) => parsed_json_bytes(bytes@) == Some(value@),
            None => parsed_json_bytes(bytes@) is None,
        },
{
    match value_of_bytes(bytes) {
        Some(value) => Some(json_of_value(&value)),
        None => None,
    }
}

/// Writes a value as compact JSON text, on a single line.
pub fn write_json(json: &Json) -> (text: String)
    ensures
        text@ == json_text(json@),
        lacks(text@, '\n'),
{
    let value = value_of_json(json);
    text_of_value(&value)
}

}
