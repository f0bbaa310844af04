//! JSON values: what the operations read their options from and write their answers into.
use vstd::prelude::*;
use vstd::string::*;

use crate::decimal::decimal;
use crate::decimal::i64_of;
use crate::decimal::is_whole;
use crate::decimal::signed_decimal;
use crate::text::same;
use crate::text::str_view;

verus! {

/// A JSON value as contracts speak of it. A number is the text that it is written as.
pub ghost enum JsonView {
    Null,
    Bool(bool),
    Number(Seq<char>),
    Text(Seq<char>),
    Array(Seq<JsonView>),
    Object(Map<Seq<char>, JsonView>),
}

impl JsonView {
    /// The value under `name`, if this is an object that has one.
    pub open spec fn field(self, name: Seq<char>) -> Option<JsonView> {
        match self {
            JsonView::Object(fields) => if fields.contains_key(name) {
                Some(fields[name])
            } else {
                None
            },
            _ => None,
        }
    }

    /// The text, if this is one.
    pub open spec fn text(self) -> Option<Seq<char>> {
        match self {
            JsonView::Text(text) => Some(text),
            _ => None,
        }
    }

    /// The truth value, if this is one.
    pub open spec fn truth(self) -> Option<bool> {
        match self {
            JsonView::Bool(b) => Some(b),
            _ => None,
        }
    }

    /// The whole number, if this is one that an `i64` can hold.
    pub open spec fn whole(self) -> Option<i64> {
        match self {
            JsonView::Number(text) => i64_of(text),
            _ => None,
        }
    }

    /// The text under `name`.
    pub open spec fn text_field(self, name: Seq<char>) -> Option<Seq<char>> {
        match self.field(name) {
            Some(value) => value.text(),
            None => None,
        }
    }

    /// The truth value under `name`.
    pub open spec fn bool_field(self, name: Seq<char>) -> Option<bool> {
        match self.field(name) {
            Some(value) => value.truth(),
            None => None,
        }
    }

    /// The whole number under `name`.
    pub open spec fn int_field(self, name: Seq<char>) -> Option<i64> {
        match self.field(name) {
            Some(value) => value.whole(),
            None => None,
        }
    }

    /// The value under `name`, or null in place of one.
    pub open spec fn at(self, name: Seq<char>) -> JsonView {
        self.field(name).unwrap_or(JsonView::Null)
    }

    /// The fields of the object under `name`.
    pub open spec fn fields_field(self, name: Seq<char>) -> Option<Map<Seq<char>, JsonView>> {
        match self.at(name) {
            JsonView::Object(fields) => Some(fields),
            _ => None,
        }
    }

    /// The items of the array under `name`.
    pub open spec fn items_field(self, name: Seq<char>) -> Option<Seq<JsonView>> {
        match self.at(name) {
            JsonView::Array(items) => Some(items),
            _ => None,
        }
    }

    /// The text under the first of two names that is there at all.
    pub open spec fn text_field_or(self, name: Seq<char>, alias: Seq<char>) -> Option<Seq<char>> {
        if self.field(name) is Some {
            self.text_field(name)
        } else {
            self.text_field(alias)
        }
    }
}

/// A text, or null in place of one.
pub open spec fn text_or_null(text: Option<Seq<char>>) -> JsonView {
    match text {
        Some(t) => JsonView::Text(t),
        None => JsonView::Null,
    }
}

/// A text, or the empty one in place of one.
pub open spec fn text_or_empty(text: Option<Seq<char>>) -> JsonView {
    match text {
        Some(t) => JsonView::Text(t),
        None => JsonView::Text(Seq::empty()),
    }
}

/// A whole number as JSON.
pub open spec fn int_json(i: int) -> JsonView {
    JsonView::Number(signed_decimal(i))
}

/// A whole number as JSON, or null in place of one.
pub open spec fn int_or_null(i: Option<int>) -> JsonView {
    match i {
        Some(n) => int_json(n),
        None => JsonView::Null,
    }
}

/// What an operation answers: a JSON value, or the message of an error.
pub open spec fn outcome(result: Result<Json, String>) -> Result<JsonView, Seq<char>> {
    match result {
        Ok(json) => Ok(json@),
        Err(message) => Err(message@),
    }
}

/// The number type of `serde_json`, which this library carries without looking inside.
#[verifier::external_type_specification]
#[verifier::external_body]
pub struct ExNumber(serde_json::Number);

/// The text that `serde_json` writes a number as.
pub uninterp spec fn number_text(number: serde_json::Number) -> Seq<char>;

/// What `str::parse` to a floating-point number and then `serde_json::Number::from_f64` make of a
/// text: `None` where the text does not parse, `Some(None)` where the number that it denotes is not
/// finite, so that `from_f64` makes none of it, and else the text that the number is written as.
pub uninterp spec fn float_number(text: Seq<char>) -> Option<Option<Seq<char>>>;

/// A JSON value. An object lists its fields; where a name is listed twice, the later one counts.
#[derive(Debug, PartialEq)]
pub enum Json {
    Null,
    Bool(bool),
    Number(serde_json::Number),
    Text(String),
    Array(Vec<Json>),
    Object(Vec<(String, Json)>),
}

/// What a JSON value says.
pub open spec fn json_view(json: Json) -> JsonView
    decreases json,
{
    match json {
        Json::Null => JsonView::Null,
        Json::Bool(b) => JsonView::Bool(b),
        Json::Number(n) => JsonView::Number(number_text(n)),
        Json::Text(s) => JsonView::Text(s@),
        Json::Array(items) => JsonView::Array(items_view(items@)),
        Json::Object(fields) => JsonView::Object(fields_view(fields@)),
    }
}

/// What the items of an array say, one by one.
pub open spec fn items_view(items: Seq<Json>) -> Seq<JsonView>
    decreases items,
{
    Seq::new(
        items.len(),
        |i: int|
            if 0 <= i < items.len() {
                json_view(items[i])
            } else {
                JsonView::Null
            },
    )
}

/// What the fields of an object say, by name.
pub open spec fn fields_view(fields: Seq<(String, Json)>) -> Map<Seq<char>, JsonView>
    decreases fields,
{
    if fields.len() == 0 {
        Map::empty()
    } else {
        fields_view(fields.drop_last()).insert(fields.last().0@, json_view(fields.last().1))
    }
}

impl View for Json {
    type V = JsonView;

    open spec fn view(&self) -> JsonView {
        json_view(*self)
    }
}

/// One more item in an array.
pub proof fn lemma_items_push(items: Seq<Json>, item: Json)
    ensures
        items_view(items.push(item)) == items_view(items).push(item@),
{
    assert(items_view(items.push(item)) =~= items_view(items).push(item@));
}

/// The field at `p` is the last one of its name, the one that counts.
pub open spec fn counts(fields: Seq<(String, Json)>, p: int) -> bool {
    0 <= p < fields.len() && forall|q: int|
        p < q < fields.len() ==> (#[trigger] fields[q]).0@ != fields[p].0@
}

/// What an object says under the name of a field that counts.
pub proof fn lemma_counts(fields: Seq<(String, Json)>, p: int)
    requires
        counts(fields, p),
    ensures
        fields_view(fields).contains_key(fields[p].0@),
        fields_view(fields)[fields[p].0@] == fields[p].1@,
    decreases fields.len(),
{
    if p < fields.len() - 1 {
        let init = fields.drop_last();
        assert(fields.last().0@ != fields[p].0@);
        assert forall|q: int| p < q < init.len() implies (#[trigger] init[q]).0@ != init[p].0@ by {
            assert(fields[q].0@ != fields[p].0@);
        }
        lemma_counts(init, p);
    }
}

/// Every name in an object is that of a field that counts.
pub proof fn lemma_field_counts(fields: Seq<(String, Json)>, name: Seq<char>) -> (p: int)
    requires
        fields_view(fields).contains_key(name),
    ensures
        counts(fields, p),
        fields[p].0@ == name,
    decreases fields.len(),
{
    if fields.last().0@ == name {
        fields.len() - 1
    } else {
        let p = lemma_field_counts(fields.drop_last(), name);
        assert forall|q: int| p < q < fields.len() implies (#[trigger] fields[q]).0@
            != fields[p].0@ by {
            if q < fields.len() - 1 {
                assert(fields.drop_last()[q].0@ != fields.drop_last()[p].0@);
            }
        }
        p
    }
}

/// The view of an optional JSON value.
pub open spec fn json_opt(json: Option<&Json>) -> Option<JsonView> {
    match json {
        Some(value) => Some(value@),
        None => None,
    }
}

/// `serde_json::Number::to_string`: the name stands for what it writes. Whole numbers are written
/// in decimal notation. Other numbers are written as the shortest text that reads back as the same
/// number.
#[verifier::external_body]
pub(crate) fn write_number(number: &serde_json::Number) -> (text: String)
    ensures
        text@ == number_text(*number),
        i64_of(text@) matches Some(i) ==> text@ == signed_decimal(i as int),
        !is_whole(text@) ==> float_number(text@) == Some(Some(text@)),
{
    number.to_string()
}

/// `serde_json::Number::as_i64`: a number written as a whole number in the range of `i64` is
/// that number, and any other, a fraction or one with an exponent among them, is none.
#[verifier::external_body]
fn number_as_i64(number: &serde_json::Number) -> (value: Option<i64>)
    ensures
        value == i64_of(number_text(*number)),
{
    number.as_i64()
}

/// `serde_json::Number::from` of an `i64`: the number is written in decimal notation.
#[verifier::external_body]
fn number_of_i64(value: i64) -> (number: serde_json::Number)
    ensures
        number_text(number) == signed_decimal(value as int),
{
    serde_json::Number::from(value)
}

/// `serde_json::Number::from` of a `u64`: the number is written in decimal notation.
#[verifier::external_body]
fn number_of_u64(value: u64) -> (number: serde_json::Number)
    ensures
        number_text(number) == decimal(value as nat),
{
    serde_json::Number::from(value)
}

/// `str::parse` to a floating-point number, and `serde_json::Number::from_f64` of what it gives: the
/// name stands for what the two make of a text. They stand together because the number between them
/// has no name here.
#[verifier::external_body]
pub(crate) fn number_of_float(text: &str) -> (number: Option<Option<serde_json::Number>>)
    ensures
        match number {
            Some(Some(n)) => float_number(text@) == Some(Some(number_text(n))),
            Some(None) => float_number(text@) == Some(None::<Seq<char>>),
            None => float_number(text@) is None,
        },
{
    match text.parse() {
        Ok(value) => Some(serde_json::Number::from_f64(value)),
        Err(_) => None,
    }
}

/// Adds a field to an object, in place of one of the same name.
pub fn put(fields: &mut Vec<(String, Json)>, name: &str, value: Json)
    ensures
        final(fields)@.len() == old(fields)@.len() + 1,
        fields_view(final(fields)@) == fields_view(old(fields)@).insert(name@, value@),
{
    let ghost before = fields@;
    fields.push((name.to_owned(), value));
    assert(fields@.drop_last() =~= before);
}

impl Json {
    /// A text.
    pub fn text(text: &str) -> (json: Json)
        ensures
            json@ == JsonView::Text(text@),
    {
        Json::Text(text.to_owned())
    }

    /// A text, or null in place of one.
    pub fn text_or_null(text: Option<&str>) -> (json: Json)
        ensures
            json@ == text_or_null(str_view(text)),
    {
        match text {
            Some(t) => Json::text(t),
            None => Json::Null,
        }
    }

    /// A text, or the empty one in place of one.
    pub fn text_or_empty(text: Option<&str>) -> (json: Json)
        ensures
            json@ == text_or_empty(str_view(text)),
    {
        match text {
            Some(t) => Json::text(t),
            None => Json::Text(String::new()),
        }
    }

    /// A whole number.
    pub fn whole(value: i64) -> (json: Json)
        ensures
            json@ == int_json(value as int),
    {
        Json::Number(number_of_i64(value))
    }

    /// A whole number that is not negative.
    pub fn count(value: u64) -> (json: Json)
        ensures
            json@ == int_json(value as int),
    {
        Json::Number(number_of_u64(value))
    }

    /// The value under `name`, if this is an object that has one.
    pub fn get(&self, name: &str) -> (value: Option<&Json>)
        ensures
            json_opt(value) == self@.field(name@),
    {
        match self {
            Json::Object(fields) => {
                let mut i: usize = fields.len();
                assert(fields@.take(i as int) =~= fields@);
                while i > 0
                    invariant
                        i <= fields@.len(),
                        self@ == JsonView::Object(fields_view(fields@)),
                        fields_view(fields@).contains_key(name@) == fields_view(
                            fields@.take(i as int),
                        ).contains_key(name@),
                        fields_view(fields@).contains_key(name@) ==> fields_view(fields@)[name@]
                            == fields_view(fields@.take(i as int))[name@],
                    decreases i,
                {
                    i = i - 1;
                    assert(fields@.take(i + 1).drop_last() =~= fields@.take(i as int));
                    assert(fields@.take(i + 1).last() == fields@[i as int]);
                    if same(fields[i].0.as_str(), name) {
                        return Some(&fields[i].1);
                    }
                }
                assert(fields@.take(0) =~= Seq::<(String, Json)>::empty());
                None
            },
            _ => None,
        }
    }

    /// The text, if this is one.
    pub fn as_str(&self) -> (text: Option<&str>)
        ensures
            str_view(text) == self@.text(),
    {
        match self {
            Json::Text(text) => Some(text.as_str()),
            _ => None,
        }
    }

    /// The truth value, if this is one.
    pub fn as_bool(&self) -> (value: Option<bool>)
        ensures
            value == self@.truth(),
    {
        match self {
            Json::Bool(b) => Some(*b),
            _ => None,
        }
    }

    /// The whole number, if this is one that an `i64` can hold.
    pub fn as_i64(&self) -> (value: Option<i64>)
        ensures
            value == self@.whole(),
    {
        match self {
            Json::Number(number) => number_as_i64(number),
            _ => None,
        }
    }

    /// Whether this is null.
    pub fn is_null(&self) -> (null: bool)
        ensures
            null == (self@ is Null),
    {
        match self {
            Json::Null => true,
            _ => false,
        }
    }

    /// The text under `name`.
    pub fn text_at(&self, name: &str) -> (text: Option<&str>)
        ensures
            str_view(text) == self@.text_field(name@),
    {
        match self.get(name) {
            Some(value) => value.as_str(),
            None => None,
        }
    }

    /// The text under the first of two names that is there at all.
    pub fn text_at_either(&self, name: &str, alias: &str) -> (text: Option<&str>)
        ensures
            str_view(text) == self@.text_field_or(name@, alias@),
    {
        match self.get(name) {
            Some(value) => value.as_str(),
            None => self.text_at(alias),
        }
    }

    /// The truth value under `name`.
    pub fn bool_at(&self, name: &str) -> (value: Option<bool>)
        ensures
            value == self@.bool_field(name@),
    {
        match self.get(name) {
            Some(value) => value.as_bool(),
            None => None,
        }
    }

    /// The whole number under `name`.
    pub fn int_at(&self, name: &str) -> (value: Option<i64>)
        ensures
            value == self@.int_field(name@),
    {
        match self.get(name) {
            Some(value) => value.as_i64(),
            None => None,
        }
    }

    /// The fields of the object under `name`.
    pub fn fields_at(&self, name: &str) -> (fields: Option<&Vec<(String, Json)>>)
        ensures
            match fields {
                Some(list) => self@.fields_field(name@) == Some(fields_view(list@)),
                None => self@.fields_field(name@) is None,
            },
    {
        match self.get(name) {
            Some(Json::Object(fields)) => Some(fields),
            _ => None,
        }
    }

    /// The items of the array under `name`.
    pub fn items_at(&self, name: &str) -> (items: Option<&Vec<Json>>)
        ensures
            match items {
                Some(list) => self@.items_field(name@) == Some(items_view(list@)),
                None => self@.items_field(name@) is None,
            },
    {
        match self.get(name) {
            Some(Json::Array(items)) => Some(items),
            _ => None,
        }
    }
}

}
