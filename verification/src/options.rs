//! Reading the options of an operation, and lists in what a service answers.
use vstd::prelude::*;
use vstd::string::*;

use crate::json::items_view;
use crate::json::lemma_items_push;
use crate::json::Json;
use crate::json::JsonView;
use crate::text::str_view;

verus! {

/// A result as contracts speak of it.
pub open spec fn seen<T: View>(result: Result<T, String>) -> Result<T::V, Seq<char>> {
    match result {
        Ok(value) => Ok(value@),
        Err(message) => Err(message@),
    }
}

/// The view of an optional string.
pub open spec fn opt_view(text: Option<String>) -> Option<Seq<char>> {
    match text {
        Some(t) => Some(t@),
        None => None,
    }
}

/// An optional string, borrowed.
pub(crate) fn borrowed(text: &Option<String>) -> (inner: Option<&str>)
    ensures
        str_view(inner) == opt_view(*text),
{
    match text {
        Some(t) => Some(t.as_str()),
        None => None,
    }
}

/// An optional string of one's own.
pub(crate) fn owned(text: Option<&str>) -> (copy: Option<String>)
    ensures
        opt_view(copy) == str_view(text),
{
    match text {
        Some(t) => Some(t.to_owned()),
        None => None,
    }
}

/// The text under `name`, which must be there; else the message says that it is missing.
pub open spec fn needed(opts: JsonView, name: Seq<char>, message: Seq<char>) -> Result<
    Seq<char>,
    Seq<char>,
> {
    match opts.text_field(name) {
        Some(text) => Ok(text),
        None => Err(message),
    }
}

/// Reads a text that must be there.
pub(crate) fn require<'a>(opts: &'a Json, name: &str, message: &str) -> (text: Result<
    &'a str,
    String,
>)
    ensures
        match text {
            Ok(t) => needed(opts@, name@, message@) == Ok::<Seq<char>, Seq<char>>(t@),
            Err(m) => needed(opts@, name@, message@) == Err::<Seq<char>, Seq<char>>(m@),
        },
{
    match opts.text_at(name) {
        Some(text) => Ok(text),
        None => Err(message.to_owned()),
    }
}

/// The whole number under `name`, cut down to the width that a service takes.
pub open spec fn narrow_field(opts: JsonView, name: Seq<char>) -> Option<i32> {
    match opts.int_field(name) {
        Some(n) => Some(n as i32),
        None => None,
    }
}

/// Reads a whole number, cut down to the width that a service takes.
pub(crate) fn narrow_at(opts: &Json, name: &str) -> (value: Option<i32>)
    ensures
        value == narrow_field(opts@, name@),
{
    match opts.int_at(name) {
        Some(n) => Some(#[verifier::truncate] (n as i32)),
        None => None,
    }
}

/// Every value is a text.
pub open spec fn all_texts(items: Seq<JsonView>) -> bool {
    forall|i: int| 0 <= i < items.len() ==> (#[trigger] items[i]) is Text
}

/// The texts in a value: those of an array, a single one, or none at all for null.
pub open spec fn text_list(json: JsonView) -> Result<Seq<Seq<char>>, Seq<char>> {
    match json {
        JsonView::Array(items) => if all_texts(items) {
            Ok(items.map_values(|v: JsonView| v->Text_0))
        } else {
            Err("non-string in array"@)
        },
        JsonView::Text(text) => Ok(seq![text]),
        JsonView::Null => Ok(Seq::empty()),
        _ => Err("expected string or array of strings"@),
    }
}

/// The texts in a list.
pub open spec fn strings_view(list: Seq<String>) -> Seq<Seq<char>> {
    list.map_values(|s: String| s@)
}

/// One more text in a list.
pub proof fn lemma_strings_push(list: Seq<String>, text: String)
    ensures
        strings_view(list.push(text)) == strings_view(list).push(text@),
{
    assert(strings_view(list.push(text)) =~= strings_view(list).push(text@));
}

/// The texts in an array of texts, in a single text, or in null.
pub fn string_vec(v: &Json) -> (list: Result<Vec<String>, String>)
    ensures
        match list {
            Ok(texts) => text_list(v@) == Ok::<Seq<Seq<char>>, Seq<char>>(strings_view(texts@)),
            Err(message) => text_list(v@) == Err::<Seq<Seq<char>>, Seq<char>>(message@),
        },
{
    match v {
        Json::Array(items) => {
            let mut list: Vec<String> = Vec::new();
            let mut i: usize = 0;
            let ghost views = items_view(items@);
            while i < items.len()
                invariant
                    i <= items@.len(),
                    views == items_view(items@),
                    v@ == JsonView::Array(views),
                    all_texts(views.take(i as int)),
                    strings_view(list@) =~= views.take(i as int).map_values(
                        |v: JsonView| v->Text_0,
                    ),
                decreases items@.len() - i,
            {
                assert(views[i as int] == items@[i as int]@);
                match items[i].as_str() {
                    Some(text) => {
                        let copy = text.to_owned();
                        proof {
                            lemma_strings_push(list@, copy);
                            assert(views.take(i + 1) =~= views.take(i as int).push(
                                views[i as int],
                            ));
                        }
                        list.push(copy);
                    },
                    None => {
                        assert(!(views[i as int] is Text));
                        return Err("non-string in array".to_owned());
                    },
                }
                i = i + 1;
            }
            assert(views.take(i as int) =~= views);
            Ok(list)
        },
        Json::Text(text) => {
            let copy = text.clone();
            let mut list: Vec<String> = Vec::new();
            proof {
                lemma_strings_push(list@, copy);
                assert(strings_view(list@) =~= Seq::<Seq<char>>::empty());
                assert(Seq::<Seq<char>>::empty().push(text@) =~= seq![text@]);
            }
            list.push(copy);
            Ok(list)
        },
        Json::Null => {
            let list: Vec<String> = Vec::new();
            assert(strings_view(list@) =~= Seq::<Seq<char>>::empty());
            Ok(list)
        },
        _ => Err("expected string or array of strings".to_owned()),
    }
}

/// The texts in a list of JSON.
pub open spec fn texts_json(list: Seq<Seq<char>>) -> JsonView {
    JsonView::Array(list.map_values(|t: Seq<char>| JsonView::Text(t)))
}

/// A list of texts as JSON.
pub(crate) fn text_array(list: &Vec<String>) -> (json: Json)
    ensures
        json@ == texts_json(strings_view(list@)),
{
    let mut items: Vec<Json> = Vec::new();
    let mut i: usize = 0;
    let ghost whole = strings_view(list@).map_values(|t: Seq<char>| JsonView::Text(t));
    while i < list.len()
        invariant
            i <= list@.len(),
            whole == strings_view(list@).map_values(|t: Seq<char>| JsonView::Text(t)),
            items_view(items@) == whole.take(i as int),
        decreases list@.len() - i,
    {
        let item = Json::text(list[i].as_str());
        proof {
            lemma_items_push(items@, item);
            assert(whole.take(i + 1) =~= whole.take(i as int).push(whole[i as int]));
        }
        items.push(item);
        i = i + 1;
    }
    assert(whole.take(i as int) =~= whole);
    Json::Array(items)
}

/// Those of the texts in a list that are there, in order.
pub open spec fn present(list: Seq<Option<String>>) -> Seq<Seq<char>>
    decreases list.len(),
{
    if list.len() == 0 {
        Seq::empty()
    } else {
        match list.last() {
            Some(text) => present(list.drop_last()).push(text@),
            None => present(list.drop_last()),
        }
    }
}

/// Keeps those of the texts in a list that are there.
pub(crate) fn keep_present(list: Vec<Option<String>>) -> (kept: Vec<String>)
    ensures
        strings_view(kept@) == present(list@),
{
    let mut kept: Vec<String> = Vec::new();
    let mut i: usize = 0;
    assert(list@.take(0) =~= Seq::<Option<String>>::empty());
    assert(strings_view(kept@) =~= Seq::<Seq<char>>::empty());
    while i < list.len()
        invariant
            i <= list@.len(),
            strings_view(kept@) == present(list@.take(i as int)),
        decreases list@.len() - i,
    {
        assert(list@.take(i + 1).drop_last() =~= list@.take(i as int));
        if let Some(text) = &list[i] {
            let copy = text.clone();
            proof {
                lemma_strings_push(kept@, copy);
            }
            kept.push(copy);
        }
        i = i + 1;
    }
    assert(list@.take(i as int) =~= list@);
    kept
}

}
