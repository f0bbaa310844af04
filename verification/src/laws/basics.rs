//! Laws on what the functions on texts, numbers and JSON values return.
use vstd::prelude::*;
use vstd::string::*;

use crate::attribute::fits;
use crate::attribute::item_view;
use crate::attribute::json_of;
use crate::attribute::av_of;
use crate::attribute::writable;
use crate::attribute::AttributeValue;
use crate::attribute::AvView;
use crate::attribute::Surface;
use crate::ddb::item_of_json;
use crate::ddb::names_of_json;
use crate::ddb::names_view;
use crate::decimal::decimal;
use crate::decimal::decimal_text;
use crate::decimal::i64_of;
use crate::decimal::is_whole;
use crate::decimal::parse_i64;
use crate::json::fields_view;
use crate::json::int_json;
use crate::json::items_view;
use crate::json::Json;
use crate::json::JsonView;
use crate::lambda::invoke_json;
use crate::lambda::show_invoke;
use crate::laws::attributes::law_nested_is_written;
use crate::laws::services::given;
use crate::laws::services::refused;
use crate::laws::services::says_so;
use crate::laws::strings::law_after_head;
use crate::laws::strings::law_before_tail;
use crate::laws::strings::law_case;
use crate::laws::strings::law_cut;
use crate::laws::strings::law_cut_last;
use crate::laws::tables::array_at;
use crate::laws::tables::object_at;
use crate::laws::tables::written_as;
use crate::ops::lambda::show_result;
use crate::options::opt_view;
use crate::options::string_vec;
use crate::options::strings_view;
use crate::split::all_fields;
use crate::split::cut_either;
use crate::split::fields_up_to;
use crate::split::split_all;
use crate::split::split_either;
use crate::split::split_up_to;
use crate::text::chars_of;
use crate::text::comes_before;
use crate::text::precedes;
use crate::text::same;
use crate::text::split_last;
use crate::text::split_once;
use crate::text::starts_with;
use crate::text::strip_prefix;
use crate::text::strip_suffix;
use crate::text::to_lower;
use crate::text::to_upper;
use crate::text::trim;
use crate::text::trim_end;
use crate::text::trim_start;
use crate::text::trimmed;
use crate::text::without_leading;
use crate::text::without_trailing;
use crate::wire::json_text;
use crate::wire::parse_json;
use crate::wire::parse_json_bytes;
use crate::wire::parsed_json;
use crate::wire::parsed_json_bytes;
use crate::wire::write_json;

verus! {

/// Texts are the same where their characters are, and one begins another where it is its head.
pub proof fn law_texts_are_compared(
    a: &str,
    b: &str,
    equal: bool,
    begins: bool,
    before: bool,
    chars: Vec<char>,
)
    requires
        call_ensures(same, (a, b), equal),
        call_ensures(starts_with, (a, b), begins),
        call_ensures(comes_before, (a, b), before),
        call_ensures(chars_of, (a,), chars),
    ensures
        equal <==> a@ == b@,
        begins <==> b@.len() <= a@.len() && a@.take(b@.len() as int) == b@,
        before <==> precedes(a@, b@),
        chars@ == a@,
{
    if begins {
        assert(a@.take(b@.len() as int) =~= b@);
    }
    if b@.len() <= a@.len() && a@.take(b@.len() as int) == b@ {
        assert forall|i: int| 0 <= i < b@.len() implies b@[i] == a@[i] by {
            assert(a@.take(b@.len() as int)[i] == a@[i]);
        }
        assert(a@.subrange(0, b@.len() as int) =~= b@);
    }
}

/// What is stripped, and the halves that a text is split into, make it up again: a text is split at
/// the first mark, or at the last.
pub proof fn law_texts_are_split(
    text: &str,
    mark: &str,
    head: Option<&str>,
    tail: Option<&str>,
    first: Option<(&str, &str)>,
    last: Option<(&str, &str)>,
)
    requires
        mark@.len() > 0,
        call_ensures(strip_prefix, (text, mark), head),
        call_ensures(strip_suffix, (text, mark), tail),
        call_ensures(split_once, (text, mark), first),
        call_ensures(split_last, (text, mark), last),
    ensures
        match head {
            Some(rest) => text@ == mark@ + rest@,
            None => forall|rest: Seq<char>| text@ != #[trigger] (mark@ + rest),
        },
        match tail {
            Some(rest) => text@ == rest@ + mark@,
            None => forall|rest: Seq<char>| text@ != #[trigger] (rest + mark@),
        },
        match first {
            Some((before, after)) => {
                &&& text@ == before@ + mark@ + after@
                &&& forall|j: int|
                    0 <= j < before@.len() ==> #[trigger] text@.subrange(j, j + mark@.len()) != mark@
            },
            None => forall|j: int|
                0 <= j && j + mark@.len() <= text@.len() ==> #[trigger] text@.subrange(
                    j,
                    j + mark@.len(),
                ) != mark@,
        },
        match last {
            Some((before, after)) => {
                &&& text@ == before@ + mark@ + after@
                &&& forall|j: int|
                    before@.len() < j && j + mark@.len() <= text@.len() ==> #[trigger] text@.subrange(
                        j,
                        j + mark@.len(),
                    ) != mark@
            },
            None => first is None,
        },
{
    law_cut(text@, mark@);
    law_cut_last(text@, mark@);
    law_after_head(text@, mark@, text@);
    law_before_tail(text@, mark@, text@);
    if last is None {
        if let Some((before, after)) = first {
            let j = before@.len() as int;
            assert(text@.subrange(j, j + mark@.len()) =~= mark@);
        }
    }
    if head is None {
        assert forall|rest: Seq<char>| text@ != #[trigger] (mark@ + rest) by {
            law_after_head(text@, mark@, rest);
        }
    }
    if tail is None {
        assert forall|rest: Seq<char>| text@ != #[trigger] (rest + mark@) by {
            law_before_tail(text@, mark@, rest);
        }
    }
}

/// The fields, the ends and the case of a text are what the laws on texts speak of.
pub proof fn law_texts_are_taken_apart(
    text: &str,
    mark: &str,
    other: &str,
    n: usize,
    some: Vec<&str>,
    all: Vec<&str>,
    halves: Option<(&str, &str)>,
    ends: (&str, &str),
    trim_text: String,
    low: String,
    up: String,
)
    requires
        mark@.len() == 1,
        other@.len() == 1,
        n >= 1,
        call_ensures(split_up_to, (text, mark, n), some),
        call_ensures(split_all, (text, mark), all),
        call_ensures(split_either, (text, mark, other), halves),
        call_ensures(trim_start, (text, mark), ends.0),
        call_ensures(trim_end, (text, mark), ends.1),
        call_ensures(trim, (text,), trim_text),
        call_ensures(to_lower, (text,), low),
        call_ensures(to_upper, (text,), up),
    ensures
        some@.len() == fields_up_to(text@, mark@, n as nat).len(),
        forall|i: int|
            0 <= i < some@.len() ==> (#[trigger] some@[i])@ == fields_up_to(
                text@,
                mark@,
                n as nat,
            )[i],
        all@.len() == all_fields(text@, mark@).len(),
        forall|i: int|
            0 <= i < all@.len() ==> (#[trigger] all@[i])@ == all_fields(text@, mark@)[i],
        match cut_either(text@, mark@[0], other@[0]) {
            Some(two) => halves matches Some(h) && h.0@ == two.0 && h.1@ == two.1,
            None => halves is None,
        },
        ends.0@ == without_leading(text@, mark@[0]),
        ends.1@ == without_trailing(text@, mark@[0]),
        trim_text@ == trimmed(text@),
        low@.len() == text@.len() && up@.len() == text@.len(),
        forall|i: int|
            0 <= i < text@.len() ==> #[trigger] low@[i] as int == if 65 <= text@[i] as int <= 90 {
                text@[i] as int + 32
            } else {
                text@[i] as int
            },
        forall|i: int|
            0 <= i < text@.len() ==> #[trigger] up@[i] as int == if 97 <= text@[i] as int <= 122 {
                text@[i] as int - 32
            } else {
                text@[i] as int
            },
{
    let a = crate::split::strs_view(some@);
    let b = crate::split::strs_view(all@);
    assert(a.len() == some@.len() && b.len() == all@.len());
    assert(forall|i: int| 0 <= i < a.len() ==> (#[trigger] some@[i])@ == a[i]);
    assert(forall|i: int| 0 <= i < b.len() ==> (#[trigger] all@[i])@ == b[i]);
    assert forall|i: int| 0 <= i < text@.len() implies #[trigger] low@[i] as int == if 65
        <= text@[i] as int <= 90 {
        text@[i] as int + 32
    } else {
        text@[i] as int
    } by {
        law_case(text@[i]);
    }
    assert forall|i: int| 0 <= i < text@.len() implies #[trigger] up@[i] as int == if 97
        <= text@[i] as int <= 122 {
        text@[i] as int - 32
    } else {
        text@[i] as int
    } by {
        law_case(text@[i]);
    }
}

/// Numbers are read and written in decimal notation.
pub proof fn law_numbers_are_read_and_written(
    text: &str,
    value: Option<i64>,
    n: u64,
    written: String,
    i: i64,
    numbers: (Json, Json),
)
    requires
        call_ensures(parse_i64, (text,), value),
        call_ensures(decimal_text, (n,), written),
        call_ensures(Json::whole, (i,), numbers.0),
        call_ensures(Json::count, (n,), numbers.1),
    ensures
        value == i64_of(text@),
        written@ == decimal(n as nat),
        numbers.0@ == int_json(i as int),
        numbers.1@ == int_json(n as int),
{
}

/// A value is read as what it is, and as nothing else.
pub proof fn law_value_is_read(
    json: &Json,
    text: Option<&str>,
    truth: Option<bool>,
    number: Option<i64>,
    null: bool,
)
    requires
        call_ensures(Json::as_str, (json,), text),
        call_ensures(Json::as_bool, (json,), truth),
        call_ensures(Json::as_i64, (json,), number),
        call_ensures(Json::is_null, (json,), null),
    ensures
        match json@ {
            JsonView::Text(t) => text matches Some(s) && s@ == t,
            _ => text is None,
        },
        match json@ {
            JsonView::Bool(b) => truth == Some(b),
            _ => truth is None,
        },
        match json@ {
            JsonView::Number(n) => number == i64_of(n),
            _ => number is None,
        },
        null <==> json@ == JsonView::Null,
{
}

/// What an object has under a name is read where it is of the kind that is asked for; a second name
/// counts only where there is nothing under the first.
pub proof fn law_field_is_read(
    json: &Json,
    name: &str,
    alias: &str,
    value: Option<&Json>,
    texts: (Option<&str>, Option<&str>),
    truth: Option<bool>,
    fields: Option<&Vec<(String, Json)>>,
    items: Option<&Vec<Json>>,
)
    requires
        call_ensures(Json::get, (json, name), value),
        call_ensures(Json::text_at, (json, name), texts.0),
        call_ensures(Json::text_at_either, (json, name, alias), texts.1),
        call_ensures(Json::bool_at, (json, name), truth),
        call_ensures(Json::fields_at, (json, name), fields),
        call_ensures(Json::items_at, (json, name), items),
    ensures
        match json@ {
            JsonView::Object(all) => {
                &&& value is Some <==> all.dom().contains(name@)
                &&& value matches Some(v) ==> v@ == all[name@]
            },
            _ => value is None,
        },
        match given(json@, name@) {
            Some(t) => texts.0 matches Some(s) && s@ == t,
            None => texts.0 is None,
        },
        match given(
            json@,
            if value is Some {
                name@
            } else {
                alias@
            },
        ) {
            Some(t) => texts.1 matches Some(s) && s@ == t,
            None => texts.1 is None,
        },
        truth == Some(true) <==> says_so(json@, name@),
        match object_at(json@, name@) {
            Some(inner) => fields matches Some(f) && fields_view(f@) == inner,
            None => fields is None,
        },
        match array_at(json@, name@) {
            Some(inner) => items matches Some(i) && items_view(i@) == inner,
            None => items is None,
        },
{
}

/// Texts in a value: one, all of an array in their order, or none for null; anything else is refused.
pub proof fn law_texts_are_read(v: &Json, list: Result<Vec<String>, String>)
    requires
        call_ensures(string_vec, (v,), list),
    ensures
        match v@ {
            JsonView::Text(text) => list matches Ok(l) && l@.len() == 1 && l@[0]@ == text,
            JsonView::Null => list matches Ok(l) && l@.len() == 0,
            JsonView::Array(items) => if forall|i: int|
                0 <= i < items.len() ==> (#[trigger] items[i]) is Text {
                &&& list matches Ok(l)
                &&& l@.len() == items.len()
                &&& forall|i: int|
                    0 <= i < items.len() ==> #[trigger] items[i] == JsonView::Text(l@[i]@)
            } else {
                refused(list, "non-string in array"@)
            },
            _ => refused(list, "expected string or array of strings"@),
        },
{
    if let Ok(l) = list {
        let texts = strings_view(l@);
        assert(texts.len() == l@.len());
        assert(forall|i: int| 0 <= i < texts.len() ==> l@[i]@ == #[trigger] texts[i]);
        if let JsonView::Array(items) = v@ {
            assert forall|i: int| 0 <= i < items.len() implies #[trigger] items[i]
                == JsonView::Text(l@[i]@) by {
                assert(texts[i] == l@[i]@);
                assert(items[i] is Text);
            }
        } else if let JsonView::Text(text) = v@ {
            assert(texts[0] == text);
        }
    }
}

/// JSON is read and written as its text says.
pub proof fn law_json_is_read_and_written(
    text: &str,
    bytes: &[u8],
    json: &Json,
    read: Result<Json, String>,
    read_bytes: Option<Json>,
    written: String,
)
    requires
        call_ensures(parse_json, (text,), read),
        call_ensures(parse_json_bytes, (bytes,), read_bytes),
        call_ensures(write_json, (json,), written),
    ensures
        match parsed_json(text@) {
            Ok(value) => read matches Ok(r) && r@ == value,
            Err(why) => refused(read, why),
        },
        match parsed_json_bytes(bytes@) {
            Some(value) => read_bytes matches Some(r) && r@ == value,
            None => read_bytes is None,
        },
        written@ == json_text(json@),
        !written@.contains('\n'),
{
}

/// Items, names and the results of functions that were read are taken as they are.
pub proof fn law_values_are_taken(
    json: &Json,
    item: Result<Vec<(String, AttributeValue)>, String>,
    names: Result<Vec<(String, String)>, String>,
    status: i32,
    error: Option<String>,
    version: Option<String>,
    log: Option<String>,
    payload: Json,
    shown: Json,
    function: &str,
    answer: Json,
)
    requires
        call_ensures(item_of_json, (json,), item),
        call_ensures(names_of_json, (json,), names),
        call_ensures(show_invoke, (status, error, version, log, payload), shown),
        call_ensures(show_result, (function, status, payload), answer),
    ensures
        match json@ {
            JsonView::Object(fields) => {
                &&& item matches Ok(i) && written_as(item_view(i@), fields)
                &&& names matches Ok(list)
                &&& names_view(list@).dom() == fields.dom()
                &&& forall|k: Seq<char>|
                    fields.dom().contains(k) ==> #[trigger] names_view(list@)[k] == match fields[k] {
                        JsonView::Text(name) => name,
                        _ => Seq::<char>::empty(),
                    }
            },
            _ => refused(item, "expected a JSON object"@) && refused(
                names,
                "--names must be a JSON object"@,
            ),
        },
        shown@ == invoke_json(
            status as int,
            opt_view(error),
            opt_view(version),
            opt_view(log),
            payload@,
        ),
        answer@ == JsonView::Object(
            map![
                "function"@ => JsonView::Text(function@),
                "status_code"@ => int_json(status as int),
                "result"@ => payload@,
            ],
        ),
{
    reveal_strlit("");
    assert(""@ =~= Seq::<char>::empty());
    if let JsonView::Object(fields) = json@ {
        law_nested_is_written(Seq::empty(), fields);
        if let Ok(list) = names {
            assert(names_view(list@).dom() =~= fields.dom());
        }
    }
}

/// A value fits unless a whole number in it does not fit 64 bits.
pub proof fn law_fits(
    b: bool,
    text: Seq<char>,
    items: Seq<JsonView>,
    fields: Map<Seq<char>, JsonView>,
)
    ensures
        fits(JsonView::Null) && fits(JsonView::Bool(b)) && fits(JsonView::Text(text)),
        fits(JsonView::Number(text)) <==> !is_whole(text) || i64_of(text) is Some,
        fits(JsonView::Array(items)) <==> forall|i: int|
            0 <= i < items.len() ==> fits(#[trigger] items[i]),
        fits(JsonView::Object(fields)) <==> forall|k: Seq<char>|
            fields.contains_key(k) ==> fits(#[trigger] fields[k]),
{
    let list = JsonView::Array(items);
    let map = JsonView::Object(fields);
    if forall|i: int| 0 <= i < items.len() ==> fits(#[trigger] items[i]) {
        assert(fits(list));
    }
    if fits(list) {
        assert forall|i: int| 0 <= i < items.len() implies fits(#[trigger] items[i]) by {
            assert(fits(list->Array_0[i]));
        }
    }
    if forall|k: Seq<char>| fields.contains_key(k) ==> fits(#[trigger] fields[k]) {
        assert(fits(map));
    }
    if fits(map) {
        assert forall|k: Seq<char>| fields.contains_key(k) implies fits(#[trigger] fields[k]) by {
            assert(fits(map->Object_0[k]));
        }
    }
}

/// What plain JSON can write: truth values, the null that is one, binary data, strings and numbers
/// that are written as themselves, and lists and maps of these.
pub proof fn law_writable(
    b: bool,
    text: Seq<char>,
    bytes: Seq<u8>,
    items: Seq<AvView>,
    fields: Map<Seq<char>, AvView>,
)
    ensures
        writable(AvView::Bool(b)) && writable(AvView::Null(true)) && writable(AvView::B(bytes)),
        !writable(AvView::Null(false)) && !writable(AvView::Unknown),
        writable(AvView::S(text)) <==> av_of(JsonView::Text(text)) == AvView::S(text),
        writable(AvView::N(text)) <==> json_of(AvView::N(text), Surface::Library)
            == JsonView::Number(text),
        writable(AvView::L(items)) <==> forall|i: int|
            0 <= i < items.len() ==> writable(#[trigger] items[i]),
        writable(AvView::M(fields)) <==> forall|k: Seq<char>|
            fields.contains_key(k) ==> writable(#[trigger] fields[k]),
{
    let list = AvView::L(items);
    let map = AvView::M(fields);
    if forall|i: int| 0 <= i < items.len() ==> writable(#[trigger] items[i]) {
        assert(writable(list));
    }
    if writable(list) {
        assert forall|i: int| 0 <= i < items.len() implies writable(#[trigger] items[i]) by {
            assert(writable(list->L_0[i]));
        }
    }
    if forall|k: Seq<char>| fields.contains_key(k) ==> writable(#[trigger] fields[k]) {
        assert(writable(map));
    }
    if writable(map) {
        assert forall|k: Seq<char>| fields.contains_key(k) implies writable(#[trigger] fields[k]) by {
            assert(writable(map->M_0[k]));
        }
    }
}

}
