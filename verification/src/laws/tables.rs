//! Laws on what the operations ask of DynamoDB, and on what they answer, whatever they return.
use vstd::prelude::*;
use vstd::string::*;

use crate::attribute::attribute_value_to_json;
use crate::attribute::av_of;
use crate::attribute::ddb_item_to_json;
use crate::attribute::item_view;
use crate::attribute::json_obj_to_av_map;
use crate::attribute::json_of;
use crate::attribute::json_to_av;
use crate::attribute::json_to_attribute_value;
use crate::attribute::AttributeValue;
use crate::attribute::AvView;
use crate::attribute::Surface;
use crate::ddb;
use crate::ddb::Write;
use crate::decimal::decimal;
use crate::json::fields_view;
use crate::json::int_json;
use crate::json::Json;
use crate::json::JsonView;
use crate::laws::attributes::law_nested_is_shown;
use crate::laws::attributes::law_nested_is_written;
use crate::laws::services::given;
use crate::laws::services::number_or_null;
use crate::laws::services::refused;
use crate::laws::services::same_text;
use crate::laws::services::text_or;
use crate::ops::ddb::assignments;
use crate::ops::ddb::filled_object;
use crate::ops::ddb::first_bad;
use crate::ops::ddb::item_list;
use crate::ops::ddb::object_items;
use crate::ops::ddb::op_ddb_batch_get_item_reply;
use crate::ops::ddb::op_ddb_batch_get_item_request;
use crate::ops::ddb::op_ddb_batch_write_item_reply;
use crate::ops::ddb::op_ddb_batch_write_item_request;
use crate::ops::ddb::op_ddb_delete_item_reply;
use crate::ops::ddb::op_ddb_delete_item_request;
use crate::ops::ddb::op_ddb_describe_table_reply;
use crate::ops::ddb::op_ddb_get_item_reply;
use crate::ops::ddb::op_ddb_get_item_request;
use crate::ops::ddb::op_ddb_list_tables_reply;
use crate::ops::ddb::op_ddb_put_item_reply;
use crate::ops::ddb::op_ddb_put_item_request;
use crate::ops::ddb::op_ddb_query_reply;
use crate::ops::ddb::op_ddb_query_request;
use crate::ops::ddb::op_ddb_scan_reply;
use crate::ops::ddb::op_ddb_scan_request;
use crate::ops::ddb::op_ddb_table_request;
use crate::ops::ddb::op_ddb_update_item_reply;
use crate::ops::ddb::op_ddb_update_item_request;
use crate::ops::ddb::write_fault;
use crate::ops::ddb::ItemIn;
use crate::ops::ddb::KeysIn;
use crate::ops::ddb::Query;
use crate::ops::ddb::Scan;
use crate::ops::ddb::TableState;
use crate::ops::ddb::Update;
use crate::ops::ddb::WritesIn;
use crate::options::strings_view;
use crate::options::texts_json;
use crate::text::precedes;

verus! {

/// The fields of the object under a name, if it is one.
pub open spec fn object_at(opts: JsonView, name: Seq<char>) -> Option<Map<Seq<char>, JsonView>> {
    match opts {
        JsonView::Object(fields) => if fields.dom().contains(name) {
            match fields[name] {
                JsonView::Object(inner) => Some(inner),
                _ => None,
            }
        } else {
            None
        },
        _ => None,
    }
}

/// The items of the array under a name, if it is one.
pub open spec fn array_at(opts: JsonView, name: Seq<char>) -> Option<Seq<JsonView>> {
    match opts {
        JsonView::Object(fields) => if fields.dom().contains(name) {
            match fields[name] {
                JsonView::Array(items) => Some(items),
                _ => None,
            }
        } else {
            None
        },
        _ => None,
    }
}

/// An item that has the names of an object, and just these, each for the attribute that is written as
/// the value there.
pub open spec fn written_as(
    item: Map<Seq<char>, AvView>,
    fields: Map<Seq<char>, JsonView>,
) -> bool {
    &&& item.dom() == fields.dom()
    &&& forall|k: Seq<char>| fields.dom().contains(k) ==> #[trigger] item[k] == av_of(fields[k])
}

/// An object that has the names of an item, and just these, each for the attribute there as it is
/// shown.
pub open spec fn shows_item(
    json: JsonView,
    item: Map<Seq<char>, AvView>,
    surface: Surface,
) -> bool {
    &&& json matches JsonView::Object(fields)
    &&& fields.dom() == item.dom()
    &&& forall|k: Seq<char>| item.dom().contains(k) ==> #[trigger] fields[k] == json_of(item[k], surface)
}

/// Attributes and items, on either surface, are shown and written by the same rules, which the laws on
/// attributes give.
pub proof fn law_attributes_are_shown_and_written(
    value: &AttributeValue,
    item: &Vec<(String, AttributeValue)>,
    json: &Json,
    obj: &Vec<(String, Json)>,
    shown: (Json, Json),
    shown_items: (Json, Json),
    written: (AttributeValue, AttributeValue, AttributeValue),
    written_item: Vec<(String, AttributeValue)>,
)
    requires
        call_ensures(attribute_value_to_json, (value,), shown.0),
        call_ensures(ddb::av_to_json, (value,), shown.1),
        call_ensures(ddb_item_to_json, (item,), shown_items.0),
        call_ensures(ddb::av_map_to_json, (item,), shown_items.1),
        call_ensures(json_to_av, (json,), written.0),
        call_ensures(json_to_attribute_value, (json,), written.1),
        call_ensures(ddb::json_to_av, (json,), written.2),
        call_ensures(json_obj_to_av_map, (obj,), written_item),
    ensures
        shown.0@ == json_of(value@, Surface::Library),
        shown.1@ == json_of(value@, Surface::Command),
        shows_item(shown_items.0@, item_view(item@), Surface::Library),
        shows_item(shown_items.1@, item_view(item@), Surface::Command),
        written.0@ == av_of(json@) && written.1@ == av_of(json@) && written.2@ == av_of(json@),
        written_as(item_view(written_item@), fields_view(obj@)),
{
    law_nested_is_shown(Seq::empty(), item_view(item@), Surface::Library);
    law_nested_is_shown(Seq::empty(), item_view(item@), Surface::Command);
    law_nested_is_written(Seq::empty(), fields_view(obj@));
}

/// A set of strings is shown as the array of its strings, each as a text, in the library and on the
/// command line.
pub proof fn law_strings_of_a_set_are_shown(list: Vec<String>, library: Json, command: Json)
    requires
        call_ensures(attribute_value_to_json, (&AttributeValue::Ss(list),), library),
        call_ensures(ddb::av_to_json, (&AttributeValue::Ss(list),), command),
    ensures
        library@ == command@,
        library@ is Array,
        library@->Array_0.len() == list@.len(),
        forall|i: int|
            0 <= i < list@.len() ==> #[trigger] library@->Array_0[i] == JsonView::Text(list@[i]@),
{
    crate::laws::attributes::law_attribute_view(
        arbitrary(),
        true,
        arbitrary(),
        list,
        arbitrary(),
        arbitrary(),
        arbitrary(),
    );
    let texts = AttributeValue::Ss(list)@->Ss_0;
    crate::laws::attributes::law_string_set_is_shown(texts, texts, Surface::Library);
    crate::laws::attributes::law_string_set_is_shown(texts, texts, Surface::Command);
    assert forall|i: int| 0 <= i < list@.len() implies #[trigger] library@->Array_0[i]
        == JsonView::Text(list@[i]@) by {
        assert(texts[i] == list@[i]@);
    }
    assert(library@->Array_0 =~= command@->Array_0);
}

/// The requests for one item: it is written in the table as the object that is given, or found under
/// the key that is given.
pub proof fn law_item_is_asked_for(
    opts: &Json,
    table: Result<String, String>,
    put: Result<ItemIn, String>,
    get: Result<ItemIn, String>,
    delete: Result<ItemIn, String>,
)
    requires
        call_ensures(op_ddb_table_request, (opts,), table),
        call_ensures(op_ddb_put_item_request, (opts,), put),
        call_ensures(op_ddb_get_item_request, (opts,), get),
        call_ensures(op_ddb_delete_item_request, (opts,), delete),
    ensures
        match given(opts@, "table"@) {
            None => refused(table, "missing table"@) && refused(put, "missing table"@) && refused(
                get,
                "missing table"@,
            ) && refused(delete, "missing table"@),
            Some(name) => {
                &&& table matches Ok(t) && t@ == name
                &&& match object_at(opts@, "item"@) {
                    None => refused(put, "missing item (object)"@),
                    Some(fields) => put matches Ok(p) && p.table@ == name && written_as(
                        item_view(p.item@),
                        fields,
                    ),
                }
                &&& match object_at(opts@, "key"@) {
                    None => refused(get, "missing key (object)"@) && refused(
                        delete,
                        "missing key (object)"@,
                    ),
                    Some(fields) => {
                        &&& get matches Ok(g) && g.table@ == name && written_as(
                            item_view(g.item@),
                            fields,
                        )
                        &&& delete matches Ok(d) && d.table@ == name && written_as(
                            item_view(d.item@),
                            fields,
                        )
                    },
                }
            },
        },
{
    if let Some(fields) = object_at(opts@, "item"@) {
        law_nested_is_written(Seq::empty(), fields);
    }
    if let Some(fields) = object_at(opts@, "key"@) {
        law_nested_is_written(Seq::empty(), fields);
    }
}

/// Values that are bound to placeholders: those of the object under `values`, if there is one.
pub open spec fn binds_values(
    values: Option<Vec<(String, AttributeValue)>>,
    opts: JsonView,
) -> bool {
    match (values, object_at(opts, "values"@)) {
        (Some(list), Some(fields)) => written_as(item_view(list@), fields),
        (None, None) => true,
        _ => false,
    }
}

/// Names that are bound to placeholders: the texts in the object under `names`, if there is one, and
/// nothing else of it.
pub open spec fn binds_names(names: Option<Vec<(String, String)>>, opts: JsonView) -> bool {
    match (names, object_at(opts, "names"@)) {
        (Some(list), Some(fields)) => {
            let bound = ddb::names_view(list@);
            forall|k: Seq<char>|
                {
                    &&& #[trigger] bound.dom().contains(k) <==> fields.dom().contains(k)
                        && fields[k] is Text
                    &&& bound.dom().contains(k) ==> fields[k] == JsonView::Text(bound[k])
                }
        },
        (None, None) => true,
        _ => false,
    }
}

/// Of names that are listed twice the last one counts, and the others are not touched.
pub proof fn law_later_name_counts(list: Seq<(String, String)>, name: String, value: String)
    ensures
        ddb::names_view(list.push((name, value))) == ddb::names_view(list).insert(name@, value@),
        ddb::names_view(Seq::empty()) == Map::<Seq<char>, Seq<char>>::empty(),
{
    assert(list.push((name, value)).drop_last() =~= list);
}

/// A query and a scan keep all that is given for them.
pub proof fn law_query_and_scan_are_asked_for(
    opts: &Json,
    query: Result<Query, String>,
    scan: Result<Scan, String>,
)
    requires
        call_ensures(op_ddb_query_request, (opts,), query),
        call_ensures(op_ddb_scan_request, (opts,), scan),
    ensures
        match (given(opts@, "table"@), given(opts@, "key_condition"@)) {
            (None, _) => refused(query, "missing table"@),
            (_, None) => refused(query, "missing key_condition (a KeyConditionExpression)"@),
            (Some(table), Some(condition)) => {
                &&& query matches Ok(q)
                &&& q.table@ == table && q.condition@ == condition
                &&& binds_values(q.values, opts@)
                &&& binds_names(q.names, opts@)
                &&& same_text(q.filter, given(opts@, "filter"@))
                &&& same_text(q.index, given(opts@, "index"@))
                &&& q.limit == match opts@.int_field("limit"@) {
                    Some(n) => Some(n as i32),
                    None => None,
                }
            },
        },
        match given(opts@, "table"@) {
            None => refused(scan, "missing table"@),
            Some(table) => {
                &&& scan matches Ok(s)
                &&& s.table@ == table
                &&& binds_values(s.values, opts@)
                &&& binds_names(s.names, opts@)
                &&& same_text(s.filter, given(opts@, "filter"@))
                &&& s.limit == match opts@.int_field("limit"@) {
                    Some(n) => Some(n as i32),
                    None => None,
                }
            },
        },
{
    if let Some(fields) = object_at(opts@, "values"@) {
        law_nested_is_written(Seq::empty(), fields);
    }
}

/// Items in an answer: as many as there are, each as the library shows it, in their order.
pub open spec fn shows_items(json: JsonView, items: Seq<Vec<(String, AttributeValue)>>) -> bool {
    &&& json matches JsonView::Array(list)
    &&& list.len() == items.len()
    &&& forall|i: int|
        0 <= i < list.len() ==> shows_item(
            #[trigger] list[i],
            item_view(items[i]@),
            Surface::Library,
        )
}

proof fn lemma_items_shown(items: Seq<Vec<(String, AttributeValue)>>)
    ensures
        shows_items(crate::ops::ddb::items_json(items), items),
{
    let json = crate::ops::ddb::items_json(items);
    assert forall|i: int| 0 <= i < json->Array_0.len() implies shows_item(
        #[trigger] json->Array_0[i],
        item_view(items[i]@),
        Surface::Library,
    ) by {
        law_nested_is_shown(Seq::empty(), item_view(items[i]@), Surface::Library);
    }
}

proof fn lemma_labels()
    ensures
        "table"@.len() == 5,
        "items"@.len() == 5,
        "count"@.len() == 5,
        "table"@ != "items"@,
        "table"@ != "count"@,
        "items"@ != "count"@,
        "item"@.len() == 4,
        "scanned"@.len() == 7,
{
    reveal_strlit("table");
    reveal_strlit("items");
    reveal_strlit("count");
    reveal_strlit("item");
    reveal_strlit("scanned");
    assert("table"@[0] == 't' && "items"@[0] == 'i' && "count"@[0] == 'c');
}

/// What is answered of items that were found: all of them, in their order.
pub proof fn law_items_are_answered(
    table: &str,
    items: &Vec<Vec<(String, AttributeValue)>>,
    count: i32,
    scanned: i32,
    one: Option<Vec<(String, AttributeValue)>>,
    some: Option<Vec<Vec<(String, AttributeValue)>>>,
    answers: (Json, Json, Json, Json),
)
    requires
        call_ensures(op_ddb_query_reply, (table, items, count), answers.0),
        call_ensures(op_ddb_scan_reply, (table, items, count, scanned), answers.1),
        call_ensures(op_ddb_get_item_reply, (table, one), answers.2),
        call_ensures(op_ddb_batch_get_item_reply, (table, some), answers.3),
    ensures
        answers.0@.text_field("table"@) == Some(table@),
        shows_items(answers.0@.at("items"@), items@),
        answers.0@.field("count"@) == Some(int_json(count as int)),
        answers.0@->Object_0.dom() == set!["table"@, "items"@, "count"@],
        answers.1@.text_field("table"@) == Some(table@),
        shows_items(answers.1@.at("items"@), items@),
        answers.1@.field("count"@) == Some(int_json(count as int)),
        answers.1@.field("scanned"@) == Some(int_json(scanned as int)),
        answers.1@->Object_0.dom() == set!["table"@, "items"@, "count"@, "scanned"@],
        answers.2@.text_field("table"@) == Some(table@),
        match one {
            Some(item) => shows_item(answers.2@.at("item"@), item_view(item@), Surface::Library),
            None => answers.2@.field("item"@) == Some(JsonView::Null),
        },
        answers.3@.text_field("table"@) == Some(table@),
        match some {
            Some(list) => shows_items(answers.3@.at("items"@), list@),
            None => answers.3@.field("items"@) == Some(JsonView::Array(Seq::empty())),
        },
{
    lemma_labels();
    lemma_items_shown(items@);
    if let Some(list) = some {
        lemma_items_shown(list@);
    }
    if let Some(item) = one {
        law_nested_is_shown(Seq::empty(), item_view(item@), Surface::Library);
    }
    assert(answers.0@->Object_0.dom() =~= set!["table"@, "items"@, "count"@]);
    assert(answers.1@->Object_0.dom() =~= set!["table"@, "items"@, "count"@, "scanned"@]);
}

/// What is answered where something was done, and of tables.
pub proof fn law_table_is_answered(
    table: &str,
    names: &Vec<String>,
    written: usize,
    state: Option<TableState>,
    answers: (Json, Json, Json, Json, Json, Json),
)
    requires
        call_ensures(op_ddb_put_item_reply, (table,), answers.0),
        call_ensures(op_ddb_delete_item_reply, (table,), answers.1),
        call_ensures(op_ddb_update_item_reply, (table,), answers.2),
        call_ensures(op_ddb_batch_write_item_reply, (table, written), answers.3),
        call_ensures(op_ddb_list_tables_reply, (names,), answers.4),
        call_ensures(op_ddb_describe_table_reply, (table, state), answers.5),
    ensures
        answers.0@ == JsonView::Object(
            map!["table"@ => JsonView::Text(table@), "put"@ => JsonView::Bool(true)],
        ),
        answers.1@ == JsonView::Object(
            map!["table"@ => JsonView::Text(table@), "deleted"@ => JsonView::Bool(true)],
        ),
        answers.2@ == JsonView::Object(
            map!["table"@ => JsonView::Text(table@), "updated"@ => JsonView::Bool(true)],
        ),
        answers.3@ == JsonView::Object(
            map!["table"@ => JsonView::Text(table@), "written"@ => int_json(written as int)],
        ),
        answers.4@ == JsonView::Object(map!["tables"@ => texts_json(strings_view(names@))]),
        answers.5@ == JsonView::Object(
            match state {
                Some(t) => map![
                    "table"@ => JsonView::Text(table@),
                    "status"@ => text_or(t.status, JsonView::Null),
                    "item_count"@ => number_or_null(t.item_count),
                    "size_bytes"@ => number_or_null(t.size_bytes),
                    "arn"@ => text_or(t.arn, JsonView::Null),
                    "key_schema"@ => ddb::typed(t.key_schema@, "name"@),
                ],
                None => map![
                    "table"@ => JsonView::Text(table@),
                    "status"@ => JsonView::Null,
                    "item_count"@ => JsonView::Null,
                    "size_bytes"@ => JsonView::Null,
                    "arn"@ => JsonView::Null,
                    "key_schema"@ => JsonView::Null,
                ],
            },
        ),
{
}

/// The assignment to the placeholder at `i`.
pub open spec fn assignment(i: nat) -> Seq<char> {
    seq!['#', 'a'] + decimal(i) + seq![' ', '=', ' ', ':', 'v'] + decimal(i)
}

/// The first assignment stands alone, and each of the others behind a comma and a space.
pub proof fn law_assignments(n: nat)
    ensures
        assignments(0) == Seq::<char>::empty(),
        assignments(1) == assignment(0),
        n > 0 ==> assignments(n + 1) == assignments(n) + seq![',', ' '] + assignment(n),
{
    lemma_signs();
    assert("#a"@ + decimal(0) + " = "@ + (":v"@ + decimal(0)) =~= assignment(0));
    assert("#a"@ + decimal(n) + " = "@ + (":v"@ + decimal(n)) =~= assignment(n));
    reveal_with_fuel(assignments, 2);
}

proof fn lemma_signs()
    ensures
        "#a"@ == seq!['#', 'a'],
        ":v"@ == seq![':', 'v'],
        " = "@ == seq![' ', '=', ' '],
        ", "@ == seq![',', ' '],
        "SET "@ == seq!['S', 'E', 'T', ' '],
{
    reveal_strlit("#a");
    reveal_strlit(":v");
    reveal_strlit(" = ");
    reveal_strlit(", ");
    reveal_strlit("SET ");
    assert("#a"@ =~= seq!['#', 'a']);
    assert(":v"@ =~= seq![':', 'v']);
    assert(" = "@ =~= seq![' ', '=', ' ']);
    assert(", "@ =~= seq![',', ' ']);
    assert("SET "@ =~= seq!['S', 'E', 'T', ' ']);
}

/// An update sets every attribute that is given, once, to what is written as the value there, and no
/// other: under numbered placeholders, in the order of the names.
pub proof fn law_update_is_asked_for(opts: &Json, update: Result<Update, String>)
    requires
        call_ensures(op_ddb_update_item_request, (opts,), update),
    ensures
        match (given(opts@, "table"@), object_at(opts@, "key"@), object_at(opts@, "updates"@)) {
            (None, _, _) => refused(update, "missing table"@),
            (_, None, _) => refused(update, "missing key (object)"@),
            (_, _, None) => refused(update, "missing updates (object of attr => value)"@),
            (Some(table), Some(key), Some(updates)) => if forall|k: Seq<char>|
                !(#[trigger] updates.dom().contains(k)) {
                refused(update, "updates must be non-empty"@)
            } else {
                &&& update matches Ok(u)
                &&& u.table@ == table
                &&& written_as(item_view(u.key@), key)
                &&& u.names@.len() == u.values@.len()
                &&& u.expression@ == seq!['S', 'E', 'T', ' '] + assignments(u.names@.len())
                &&& forall|i: int|
                    0 <= i < u.names@.len() ==> {
                        &&& (#[trigger] u.names@[i]).0@ == seq!['#', 'a'] + decimal(i as nat)
                        &&& u.values@[i].0@ == seq![':', 'v'] + decimal(i as nat)
                        &&& updates.dom().contains(u.names@[i].1@)
                        &&& u.values@[i].1@ == av_of(updates[u.names@[i].1@])
                    }
                &&& forall|i: int, j: int|
                    0 <= i < j < u.names@.len() ==> precedes(
                        (#[trigger] u.names@[i]).1@,
                        (#[trigger] u.names@[j]).1@,
                    )
                &&& forall|k: Seq<char>|
                    updates.dom().contains(k) ==> exists|i: int|
                        0 <= i < u.names@.len() && (#[trigger] u.names@[i]).1@ == k
            },
        },
{
    lemma_signs();
    if let Some(key) = object_at(opts@, "key"@) {
        law_nested_is_written(Seq::empty(), key);
    }
    if let Some(updates) = object_at(opts@, "updates"@) {
        if forall|k: Seq<char>| !(#[trigger] updates.dom().contains(k)) {
            assert(updates =~= Map::empty());
        }
    }
}

/// A batch of keys: at least one, each an object, and all of them are fetched in their order.
pub proof fn law_batch_get_is_asked_for(opts: &Json, what: Result<KeysIn, String>)
    requires
        call_ensures(op_ddb_batch_get_item_request, (opts,), what),
    ensures
        match (given(opts@, "table"@), array_at(opts@, "keys"@)) {
            (None, _) => refused(what, "missing table"@),
            (_, None) => refused(what, "missing keys (array of key objects)"@),
            (Some(table), Some(keys)) => if keys.len() == 0 {
                refused(what, "keys must be non-empty"@)
            } else if exists|i: int| 0 <= i < keys.len() && !((#[trigger] keys[i]) is Object) {
                refused(what, "each key must be an object"@)
            } else {
                &&& what matches Ok(w)
                &&& w.table@ == table
                &&& w.keys@.len() == keys.len()
                &&& forall|i: int|
                    0 <= i < keys.len() ==> written_as(
                        item_view((#[trigger] w.keys@[i])@),
                        keys[i]->Object_0,
                    )
            },
        },
{
    if let (Some(keys), Ok(w)) = (array_at(opts@, "keys"@), what) {
        assert(item_list(w.keys@) == object_items(keys));
        assert(item_list(w.keys@).len() == w.keys@.len());
        assert forall|i: int| 0 <= i < keys.len() implies written_as(
            item_view((#[trigger] w.keys@[i])@),
            keys[i]->Object_0,
        ) by {
            assert(item_list(w.keys@)[i] == item_view(w.keys@[i]@));
            law_nested_is_written(Seq::empty(), keys[i]->Object_0);
        }
    }
}

/// The items of the array under a name, or none where there is no array.
pub open spec fn listed_at(opts: JsonView, name: Seq<char>) -> Seq<JsonView> {
    match array_at(opts, name) {
        Some(items) => items,
        None => Seq::empty(),
    }
}

/// What can be put or deleted: an object with at least one field.
pub open spec fn can_be_written(json: JsonView) -> bool {
    json matches JsonView::Object(fields) && exists|k: Seq<char>| #[trigger] fields.dom().contains(k)
}

/// Values that can all be put or deleted.
pub open spec fn all_writable(items: Seq<JsonView>) -> bool {
    forall|i: int| 0 <= i < items.len() ==> can_be_written(#[trigger] items[i])
}

/// A value that cannot be put or deleted, with none such before it.
pub open spec fn first_unwritable(items: Seq<JsonView>, at: int) -> bool {
    &&& 0 <= at < items.len()
    &&& !can_be_written(items[at])
    &&& all_writable(items.take(at))
}

/// The first of some values that cannot be written is to blame, and only where there is one.
pub proof fn law_first_to_blame(
    items: Seq<JsonView>,
    at: int,
    not_an_object: Seq<char>,
    empty: Seq<char>,
)
    ensures
        all_writable(items) <==> write_fault(items, not_an_object, empty) is None,
        first_unwritable(items, at) ==> write_fault(
            items,
            not_an_object,
            empty,
        ) == Some(
            if items[at] is Object {
                empty
            } else {
                not_an_object
            },
        ),
{
    assert forall|i: int| 0 <= i < items.len() implies (can_be_written(items[i])
        <==> #[trigger] filled_object(items[i])) by {
        lemma_filled(items[i]);
    }
    if !all_writable(items) {
        let i = choose|i: int| 0 <= i < items.len() && !can_be_written(#[trigger] items[i]);
        lemma_first_exists(items, i);
    }
    if first_unwritable(items, at) {
        assert forall|i: int| 0 <= i < at implies filled_object(#[trigger] items[i]) by {
            assert(can_be_written(items.take(at)[i]));
        }
        assert(first_bad(items, at));
        let other = choose|other: int| first_bad(items, other);
        assert(first_bad(items, other));
        if other < at {
            assert(filled_object(items[other]));
        } else if at < other {
            assert(filled_object(items[at]));
        }
    }
    if exists|k: int| first_bad(items, k) {
        let k = choose|k: int| first_bad(items, k);
        assert(!filled_object(items[k]));
        assert(!can_be_written(items[k]));
    }
}

proof fn lemma_filled(json: JsonView)
    ensures
        can_be_written(json) <==> filled_object(json),
{
    if let JsonView::Object(fields) = json {
        if !can_be_written(json) {
            assert(fields =~= Map::empty());
        } else {
            let k = choose|k: Seq<char>| #[trigger] fields.dom().contains(k);
            assert(!(Map::<Seq<char>, JsonView>::empty().dom().contains(k)));
        }
    }
}

proof fn lemma_first_exists(items: Seq<JsonView>, i: int)
    requires
        0 <= i < items.len(),
        !filled_object(items[i]),
    ensures
        exists|at: int| first_bad(items, at),
    decreases i,
{
    if exists|j: int| 0 <= j < i && !filled_object(#[trigger] items[j]) {
        let j = choose|j: int| 0 <= j < i && !filled_object(#[trigger] items[j]);
        lemma_first_exists(items, j);
    } else {
        assert(first_bad(items, i));
    }
}

/// A batch of writes: every item under `puts` is put and then every one under `deletes` is deleted,
/// in their order; a list that is not there counts as an empty one, and both may not be empty.
pub proof fn law_batch_write_is_asked_for(opts: &Json, what: Result<WritesIn, String>)
    requires
        call_ensures(op_ddb_batch_write_item_request, (opts,), what),
    ensures
        ({
            let puts = listed_at(opts@, "puts"@);
            let deletes = listed_at(opts@, "deletes"@);
            match given(opts@, "table"@) {
                None => refused(what, "missing table"@),
                Some(table) => {
                    &&& what is Ok <==> puts.len() + deletes.len() > 0 && all_writable(puts)
                        && all_writable(deletes)
                    &&& puts.len() + deletes.len() == 0 ==> refused(
                        what,
                        "provide puts and/or deletes"@,
                    )
                    &&& what matches Ok(w) ==> {
                        &&& w.table@ == table
                        &&& w.writes@.len() == puts.len() + deletes.len()
                        &&& forall|i: int|
                            #![trigger w.writes@[i]]
                            0 <= i < puts.len() ==> (w.writes@[i] matches Write::Put(item)
                                && written_as(item_view(item@), puts[i]->Object_0))
                        &&& forall|i: int|
                            #![trigger w.writes@[i]]
                            puts.len() <= i < w.writes@.len() ==> (
                            w.writes@[i] matches Write::Delete(item) && written_as(
                                item_view(item@),
                                deletes[i - puts.len()]->Object_0,
                            ))
                    }
                },
            }
        }),
{
    let puts = listed_at(opts@, "puts"@);
    let deletes = listed_at(opts@, "deletes"@);
    let put_words = (
        "each put must be an item object"@,
        "item was missing: item was not specified but it is required when building PutRequest"@,
    );
    let delete_words = (
        "each delete must be a key object"@,
        "key was missing: key was not specified but it is required when building DeleteRequest"@,
    );
    law_first_to_blame(puts, 0, put_words.0, put_words.1);
    law_first_to_blame(deletes, 0, delete_words.0, delete_words.1);
    if let Ok(w) = what {
        let seen_writes = ddb::writes_view(w.writes@);
        assert(seen_writes.len() == w.writes@.len());
        assert forall|i: int| #![trigger w.writes@[i]] 0 <= i < puts.len() implies (
        w.writes@[i] matches Write::Put(item) && written_as(item_view(item@), puts[i]->Object_0)) by {
            assert(seen_writes[i] == w.writes@[i]@);
            law_nested_is_written(Seq::empty(), puts[i]->Object_0);
        }
        assert forall|i: int|
            #![trigger w.writes@[i]]
            puts.len() <= i < w.writes@.len() implies (w.writes@[i] matches Write::Delete(item)
            && written_as(item_view(item@), deletes[i - puts.len()]->Object_0)) by {
            assert(seen_writes[i] == w.writes@[i]@);
            law_nested_is_written(Seq::empty(), deletes[i - puts.len()]->Object_0);
        }
    }
}

/// The first value of a batch that cannot be written is told, those to put before those to delete.
pub proof fn law_batch_write_is_refused(opts: &Json, what: Result<WritesIn, String>, at: int)
    requires
        call_ensures(op_ddb_batch_write_item_request, (opts,), what),
        given(opts@, "table"@) is Some,
    ensures
        first_unwritable(listed_at(opts@, "puts"@), at) ==> refused(
            what,
            if listed_at(opts@, "puts"@)[at] is Object {
                "item was missing: item was not specified but it is required when building PutRequest"@
            } else {
                "each put must be an item object"@
            },
        ),
        all_writable(listed_at(opts@, "puts"@)) && first_unwritable(
            listed_at(opts@, "deletes"@),
            at,
        ) ==> refused(
            what,
            if listed_at(opts@, "deletes"@)[at] is Object {
                "key was missing: key was not specified but it is required when building DeleteRequest"@
            } else {
                "each delete must be a key object"@
            },
        ),
{
    let puts = listed_at(opts@, "puts"@);
    let deletes = listed_at(opts@, "deletes"@);
    law_first_to_blame(
        puts,
        at,
        "each put must be an item object"@,
        "item was missing: item was not specified but it is required when building PutRequest"@,
    );
    law_first_to_blame(
        deletes,
        at,
        "each delete must be a key object"@,
        "key was missing: key was not specified but it is required when building DeleteRequest"@,
    );
}

}
