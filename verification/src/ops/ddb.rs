//! Operations on DynamoDB.
use vstd::prelude::*;
use vstd::string::*;

use crate::attribute::av_of;
use crate::attribute::ddb_item_to_json;
use crate::attribute::fields_of;
use crate::attribute::fits;
use crate::attribute::item_of;
use crate::attribute::item_view;
use crate::attribute::json_obj_to_av_map;
use crate::attribute::json_of;
use crate::attribute::json_to_av;
use crate::attribute::AttributeValue;
use crate::attribute::AvView;
use crate::attribute::Surface;
use crate::ddb::names_view;
use crate::ddb::number_or_null;
use crate::ddb::optional_item_view;
use crate::ddb::optional_names_view;
use crate::ddb::typed;
use crate::ddb::typed_list;
use crate::ddb::writes_view;
use crate::ddb::Write;
use crate::ddb::WriteView;
use crate::decimal::decimal;
use crate::decimal::decimal_text;
use crate::decimal::lemma_decimal;
use crate::json::counts;
use crate::json::fields_view;
use crate::json::int_json;
use crate::json::int_or_null;
use crate::json::items_view;
use crate::json::lemma_counts;
use crate::json::lemma_field_counts;
use crate::json::lemma_items_push;
use crate::json::put;
use crate::json::text_or_null;
use crate::json::Json;
use crate::json::JsonView;
use crate::options::borrowed;
use crate::options::narrow_at;
use crate::options::narrow_field;
use crate::options::needed;
use crate::options::opt_view;
use crate::options::owned;
use crate::options::require;
use crate::options::seen;
use crate::options::strings_view;
use crate::options::text_array;
use crate::options::texts_json;
use crate::s3::widened;
use crate::text::comes_before;
use crate::text::lemma_precedes_total;
use crate::text::lemma_precedes_transitive;
use crate::text::precedes;
use crate::text::same;

verus! {

/// Answers with the tables.
pub fn op_ddb_list_tables_reply(names: &Vec<String>) -> (json: Json)
    ensures
        json@ == JsonView::Object(map!["tables"@ => texts_json(strings_view(names@))]),
{
    let mut out: Vec<(String, Json)> = Vec::new();
    put(&mut out, "tables", text_array(names));
    Json::Object(out)
}

/// The table that the options name: what `ddb_describe_table` asks for.
pub fn op_ddb_table_request(opts: &Json) -> (table: Result<String, String>)
    ensures
        seen(table) == needed(opts@, "table"@, "missing table"@),
{
    match require(opts, "table", "missing table") {
        Ok(table) => Ok(table.to_owned()),
        Err(message) => Err(message),
    }
}

/// An item or a key, and the table that it belongs to.
#[derive(Debug)]
pub struct ItemIn {
    pub table: String,
    pub item: Vec<(String, AttributeValue)>,
}

impl View for ItemIn {
    type V = (Seq<char>, Map<Seq<char>, AvView>);

    open spec fn view(&self) -> (Seq<char>, Map<Seq<char>, AvView>) {
        (self.table@, item_view(self.item@))
    }
}

/// What `ddb_put_item` asks for: that `item`, an object, be stored in `table`.
pub open spec fn put_request(opts: JsonView) -> Result<
    (Seq<char>, Map<Seq<char>, AvView>),
    Seq<char>,
> {
    match needed(opts, "table"@, "missing table"@) {
        Err(message) => Err(message),
        Ok(table) => match opts.fields_field("item"@) {
            None => Err("missing item (object)"@),
            Some(item) => Ok((table, item_of(item))),
        },
    }
}

/// An item that was made of these fields is shown as them when it is read, but for whole numbers
/// that an `i64` cannot hold.
pub open spec fn reads_back(
    item: Map<Seq<char>, AvView>,
    fields: Map<Seq<char>, JsonView>,
) -> bool {
    fits(JsonView::Object(fields)) ==> fields_of(item, Surface::Library) == fields
}

/// What `ddb_put_item` asks for. What is stored comes back as it was when it is fetched.
pub fn op_ddb_put_item_request(opts: &Json) -> (what: Result<ItemIn, String>)
    ensures
        seen(what) == put_request(opts@),
        what matches Ok(w) ==> reads_back(
            item_view(w.item@),
            opts@.fields_field("item"@).unwrap(),
        ),
{
    let table = match op_ddb_table_request(opts) {
        Ok(table) => table,
        Err(message) => return Err(message),
    };
    match opts.fields_at("item") {
        Some(fields) => Ok(ItemIn { table, item: json_obj_to_av_map(fields) }),
        None => Err("missing item (object)".to_owned()),
    }
}

/// What is answered where a request on a table was carried out.
pub open spec fn done_json(table: Seq<char>, what: Seq<char>) -> JsonView {
    JsonView::Object(map!["table"@ => JsonView::Text(table), what => JsonView::Bool(true)])
}

/// Answers that a request on a table was carried out.
fn done(table: &str, what: &str) -> (json: Json)
    ensures
        json@ == done_json(table@, what@),
{
    let mut out: Vec<(String, Json)> = Vec::new();
    put(&mut out, "table", Json::text(table));
    put(&mut out, what, Json::Bool(true));
    Json::Object(out)
}

/// Answers that an item was stored.
pub fn op_ddb_put_item_reply(table: &str) -> (json: Json)
    ensures
        json@ == done_json(table@, "put"@),
{
    done(table, "put")
}

/// What `ddb_get_item` and `ddb_delete_item` ask for: the item under `key` in `table`.
pub open spec fn key_request(opts: JsonView) -> Result<
    (Seq<char>, Map<Seq<char>, AvView>),
    Seq<char>,
> {
    match needed(opts, "table"@, "missing table"@) {
        Err(message) => Err(message),
        Ok(table) => match opts.fields_field("key"@) {
            None => Err("missing key (object)"@),
            Some(key) => Ok((table, item_of(key))),
        },
    }
}

/// What `ddb_get_item` asks for.
pub fn op_ddb_get_item_request(opts: &Json) -> (what: Result<ItemIn, String>)
    ensures
        seen(what) == key_request(opts@),
{
    let table = match op_ddb_table_request(opts) {
        Ok(table) => table,
        Err(message) => return Err(message),
    };
    match opts.fields_at("key") {
        Some(fields) => Ok(ItemIn { table, item: json_obj_to_av_map(fields) }),
        None => Err("missing key (object)".to_owned()),
    }
}

/// Answers with an item, or with null where there is none.
pub fn op_ddb_get_item_reply(table: &str, item: Option<Vec<(String, AttributeValue)>>) -> (json:
    Json)
    ensures
        json@ == JsonView::Object(
            map![
                "table"@ => JsonView::Text(table@),
                "item"@ => match item {
                    Some(fields) => JsonView::Object(
                        fields_of(item_view(fields@), Surface::Library),
                    ),
                    None => JsonView::Null,
                },
            ],
        ),
{
    let shows = match item {
        Some(fields) => ddb_item_to_json(&fields),
        None => Json::Null,
    };
    let mut out: Vec<(String, Json)> = Vec::new();
    put(&mut out, "table", Json::text(table));
    put(&mut out, "item", shows);
    Json::Object(out)
}

/// What `ddb_delete_item` asks for.
pub fn op_ddb_delete_item_request(opts: &Json) -> (what: Result<ItemIn, String>)
    ensures
        seen(what) == key_request(opts@),
{
    op_ddb_get_item_request(opts)
}

/// Answers that an item was deleted.
pub fn op_ddb_delete_item_reply(table: &str) -> (json: Json)
    ensures
        json@ == done_json(table@, "deleted"@),
{
    done(table, "deleted")
}

/// A query as contracts speak of it.
pub ghost struct QueryView {
    pub table: Seq<char>,
    pub condition: Seq<char>,
    pub values: Option<Map<Seq<char>, AvView>>,
    pub names: Option<Map<Seq<char>, Seq<char>>>,
    pub filter: Option<Seq<char>>,
    pub index: Option<Seq<char>>,
    pub limit: Option<i32>,
}

/// A query.
#[derive(Debug)]
pub struct Query {
    pub table: String,
    pub condition: String,
    pub values: Option<Vec<(String, AttributeValue)>>,
    pub names: Option<Vec<(String, String)>>,
    pub filter: Option<String>,
    pub index: Option<String>,
    pub limit: Option<i32>,
}

impl View for Query {
    type V = QueryView;

    open spec fn view(&self) -> QueryView {
        QueryView {
            table: self.table@,
            condition: self.condition@,
            values: optional_item_view(self.values),
            names: optional_names_view(self.names),
            filter: opt_view(self.filter),
            index: opt_view(self.index),
            limit: self.limit,
        }
    }
}

/// Those of the fields of an object that are texts.
pub open spec fn texts_in(fields: Map<Seq<char>, JsonView>) -> Map<Seq<char>, Seq<char>> {
    Map::new(
        |k: Seq<char>| fields.contains_key(k) && fields[k] is Text,
        |k: Seq<char>| fields[k]->Text_0,
    )
}

/// The values that the options bind to placeholders.
pub open spec fn bound_values(opts: JsonView) -> Option<Map<Seq<char>, AvView>> {
    match opts.fields_field("values"@) {
        Some(fields) => Some(item_of(fields)),
        None => None,
    }
}

/// The names that the options bind to placeholders.
pub open spec fn bound_names(opts: JsonView) -> Option<Map<Seq<char>, Seq<char>>> {
    match opts.fields_field("names"@) {
        Some(fields) => Some(texts_in(fields)),
        None => None,
    }
}

/// What `ddb_query` asks for.
pub open spec fn query_request(opts: JsonView) -> Result<QueryView, Seq<char>> {
    match needed(opts, "table"@, "missing table"@) {
        Err(message) => Err(message),
        Ok(table) => match needed(
            opts,
            "key_condition"@,
            "missing key_condition (a KeyConditionExpression)"@,
        ) {
            Err(message) => Err(message),
            Ok(condition) => Ok(
                QueryView {
                    table,
                    condition,
                    values: bound_values(opts),
                    names: bound_names(opts),
                    filter: opts.text_field("filter"@),
                    index: opts.text_field("index"@),
                    limit: narrow_field(opts, "limit"@),
                },
            ),
        },
    }
}

/// The values that the options bind to placeholders.
fn read_values(opts: &Json) -> (values: Option<Vec<(String, AttributeValue)>>)
    ensures
        optional_item_view(values) == bound_values(opts@),
{
    match opts.fields_at("values") {
        Some(fields) => Some(json_obj_to_av_map(fields)),
        None => None,
    }
}

/// Whether the field at `at` is the last one of its name.
fn is_last(fields: &Vec<(String, Json)>, at: usize) -> (last: bool)
    requires
        at < fields@.len(),
    ensures
        last == counts(fields@, at as int),
{
    let size = fields.len();
    let mut q: usize = at + 1;
    while q < size
        invariant
            size == fields@.len(),
            at < q <= fields@.len(),
            forall|r: int| at < r < q ==> (#[trigger] fields@[r]).0@ != fields@[at as int].0@,
        decreases fields@.len() - q,
    {
        if same(fields[q].0.as_str(), fields[at].0.as_str()) {
            assert(!counts(fields@, at as int));
            return false;
        }
        q = q + 1;
    }
    true
}

/// The names that a list binds are those in the fields of an object that are texts.
proof fn lemma_texts_in_insert(
    fields: Map<Seq<char>, JsonView>,
    k: Seq<char>,
    value: JsonView,
)
    ensures
        value is Text ==> texts_in(fields.insert(k, value)) == texts_in(fields).insert(
            k,
            value->Text_0,
        ),
        !(value is Text) && !fields.contains_key(k) ==> texts_in(fields.insert(k, value))
            == texts_in(fields),
{
    if value is Text {
        assert(texts_in(fields.insert(k, value)) =~= texts_in(fields).insert(k, value->Text_0));
    } else if !fields.contains_key(k) {
        assert(texts_in(fields.insert(k, value)) =~= texts_in(fields));
    }
}

/// The fields that count, of those up to `i`.
spec fn counted(fields: Seq<(String, Json)>, i: int) -> Map<Seq<char>, JsonView>
    decreases i,
{
    if i <= 0 {
        Map::empty()
    } else if counts(fields, i - 1) {
        counted(fields, i - 1).insert(fields[i - 1].0@, fields[i - 1].1@)
    } else {
        counted(fields, i - 1)
    }
}

/// The fields that count make up the object.
proof fn lemma_counted(fields: Seq<(String, Json)>, i: int)
    requires
        0 <= i <= fields.len(),
    ensures
        forall|k: Seq<char>|
            #[trigger] counted(fields, i).contains_key(k) <==> exists|p: int|
                0 <= p < i && #[trigger] counts(fields, p) && fields[p].0@ == k,
        forall|p: int|
            0 <= p < i && #[trigger] counts(fields, p) ==> counted(fields, i)[fields[p].0@]
                == fields[p].1@,
        i == fields.len() ==> counted(fields, i) == fields_view(fields),
    decreases i,
{
    if i > 0 {
        lemma_counted(fields, i - 1);
        assert forall|k: Seq<char>| #[trigger] counted(fields, i).contains_key(k) implies exists|
            p: int,
        | 0 <= p < i && #[trigger] counts(fields, p) && fields[p].0@ == k by {
            if counts(fields, i - 1) && fields[i - 1].0@ == k {
            } else {
                assert(counted(fields, i - 1).contains_key(k));
            }
        }
        assert forall|p: int| 0 <= p < i && #[trigger] counts(fields, p) implies counted(
            fields,
            i,
        )[fields[p].0@] == fields[p].1@ by {
            if p < i - 1 && counts(fields, i - 1) {
                assert(fields[i - 1].0@ != fields[p].0@);
            }
        }
    }
    if i == fields.len() {
        let whole = fields_view(fields);
        let part = counted(fields, i);
        assert forall|k: Seq<char>| #[trigger] whole.dom().contains(k) implies part.dom().contains(
            k,
        ) && part[k] == whole[k] by {
            let p = lemma_field_counts(fields, k);
            lemma_counts(fields, p);
            assert(part.contains_key(k));
        }
        assert forall|k: Seq<char>| #[trigger] part.dom().contains(k) implies whole.dom().contains(
            k,
        ) by {
            assert(part.contains_key(k));
            let p = choose|p: int| 0 <= p < i && #[trigger] counts(fields, p) && fields[p].0@ == k;
            lemma_counts(fields, p);
        }
        assert(part =~= whole);
    }
}

/// The names that the options bind to placeholders.
fn read_names(opts: &Json) -> (names: Option<Vec<(String, String)>>)
    ensures
        optional_names_view(names) == bound_names(opts@),
{
    let fields = match opts.fields_at("names") {
        Some(fields) => fields,
        None => return None,
    };
    let mut names: Vec<(String, String)> = Vec::new();
    let mut i: usize = 0;
    assert(texts_in(Map::empty()) =~= Map::empty());
    while i < fields.len()
        invariant
            i <= fields@.len(),
            names_view(names@) == texts_in(counted(fields@, i as int)),
        decreases fields@.len() - i,
    {
        proof {
            lemma_counted(fields@, i as int);
            lemma_texts_in_insert(
                counted(fields@, i as int),
                fields@[i as int].0@,
                fields@[i as int].1@,
            );
        }
        if is_last(fields, i) {
            assert(!counted(fields@, i as int).contains_key(fields@[i as int].0@)) by {
                if counted(fields@, i as int).contains_key(fields@[i as int].0@) {
                    let p = choose|p: int|
                        0 <= p < i && #[trigger] counts(fields@, p) && fields@[p].0@
                            == fields@[i as int].0@;
                    assert(fields@[i as int].0@ != fields@[p].0@);
                }
            }
            if let Some(text) = fields[i].1.as_str() {
                let ghost before = names@;
                names.push((fields[i].0.clone(), text.to_owned()));
                assert(names@.drop_last() =~= before);
            }
        }
        i = i + 1;
    }
    proof {
        lemma_counted(fields@, i as int);
    }
    Some(names)
}

/// What `ddb_query` asks for.
pub fn op_ddb_query_request(opts: &Json) -> (query: Result<Query, String>)
    ensures
        seen(query) == query_request(opts@),
{
    let table = match op_ddb_table_request(opts) {
        Ok(table) => table,
        Err(message) => return Err(message),
    };
    let condition = match require(
        opts,
        "key_condition",
        "missing key_condition (a KeyConditionExpression)",
    ) {
        Ok(condition) => condition.to_owned(),
        Err(message) => return Err(message),
    };
    let values = read_values(opts);
    let names = read_names(opts);
    let filter = owned(opts.text_at("filter"));
    let index = owned(opts.text_at("index"));
    let limit = narrow_at(opts, "limit");
    Ok(Query { table, condition, values, names, filter, index, limit })
}

/// Items as the library shows them.
pub open spec fn items_json(items: Seq<Vec<(String, AttributeValue)>>) -> JsonView {
    JsonView::Array(
        items.map_values(
            |item: Vec<(String, AttributeValue)>|
                JsonView::Object(fields_of(item_view(item@), Surface::Library)),
        ),
    )
}

/// Shows items.
fn show_items(items: &Vec<Vec<(String, AttributeValue)>>) -> (json: Json)
    ensures
        json@ == items_json(items@),
{
    let mut list: Vec<Json> = Vec::new();
    let ghost whole = items_json(items@)->Array_0;
    let mut i: usize = 0;
    while i < items.len()
        invariant
            i <= items@.len(),
            whole == items_json(items@)->Array_0,
            items_view(list@) == whole.take(i as int),
        decreases items@.len() - i,
    {
        let item = ddb_item_to_json(&items[i]);
        proof {
            lemma_items_push(list@, item);
            assert(whole.take(i + 1) =~= whole.take(i as int).push(whole[i as int]));
        }
        list.push(item);
        i = i + 1;
    }
    assert(whole.take(i as int) =~= whole);
    Json::Array(list)
}

/// Answers with the items that a query found.
pub fn op_ddb_query_reply(
    table: &str,
    items: &Vec<Vec<(String, AttributeValue)>>,
    count: i32,
) -> (json: Json)
    ensures
        json@ == JsonView::Object(
            map![
                "table"@ => JsonView::Text(table@),
                "items"@ => items_json(items@),
                "count"@ => int_json(count as int),
            ],
        ),
{
    let mut out: Vec<(String, Json)> = Vec::new();
    put(&mut out, "table", Json::text(table));
    put(&mut out, "items", show_items(items));
    put(&mut out, "count", Json::whole(count as i64));
    Json::Object(out)
}

/// A scan as contracts speak of it.
pub ghost struct ScanView {
    pub table: Seq<char>,
    pub filter: Option<Seq<char>>,
    pub values: Option<Map<Seq<char>, AvView>>,
    pub names: Option<Map<Seq<char>, Seq<char>>>,
    pub limit: Option<i32>,
}

/// A scan.
#[derive(Debug)]
pub struct Scan {
    pub table: String,
    pub filter: Option<String>,
    pub values: Option<Vec<(String, AttributeValue)>>,
    pub names: Option<Vec<(String, String)>>,
    pub limit: Option<i32>,
}

impl View for Scan {
    type V = ScanView;

    open spec fn view(&self) -> ScanView {
        ScanView {
            table: self.table@,
            filter: opt_view(self.filter),
            values: optional_item_view(self.values),
            names: optional_names_view(self.names),
            limit: self.limit,
        }
    }
}

/// What `ddb_scan` asks for.
pub open spec fn scan_request(opts: JsonView) -> Result<ScanView, Seq<char>> {
    match needed(opts, "table"@, "missing table"@) {
        Err(message) => Err(message),
        Ok(table) => Ok(
            ScanView {
                table,
                filter: opts.text_field("filter"@),
                values: bound_values(opts),
                names: bound_names(opts),
                limit: narrow_field(opts, "limit"@),
            },
        ),
    }
}

/// What `ddb_scan` asks for.
pub fn op_ddb_scan_request(opts: &Json) -> (scan: Result<Scan, String>)
    ensures
        seen(scan) == scan_request(opts@),
{
    let table = match op_ddb_table_request(opts) {
        Ok(table) => table,
        Err(message) => return Err(message),
    };
    let filter = owned(opts.text_at("filter"));
    let values = read_values(opts);
    let names = read_names(opts);
    let limit = narrow_at(opts, "limit");
    Ok(Scan { table, filter, values, names, limit })
}

/// Answers with the items that a scan found.
pub fn op_ddb_scan_reply(
    table: &str,
    items: &Vec<Vec<(String, AttributeValue)>>,
    count: i32,
    scanned: i32,
) -> (json: Json)
    ensures
        json@ == JsonView::Object(
            map![
                "table"@ => JsonView::Text(table@),
                "items"@ => items_json(items@),
                "count"@ => int_json(count as int),
                "scanned"@ => int_json(scanned as int),
            ],
        ),
{
    let mut out: Vec<(String, Json)> = Vec::new();
    put(&mut out, "table", Json::text(table));
    put(&mut out, "items", show_items(items));
    put(&mut out, "count", Json::whole(count as i64));
    put(&mut out, "scanned", Json::whole(scanned as i64));
    Json::Object(out)
}

/// A table as the service describes it.
#[derive(Debug)]
pub struct TableState {
    pub status: Option<String>,
    pub item_count: Option<i64>,
    pub size_bytes: Option<i64>,
    pub arn: Option<String>,
    pub key_schema: Vec<(String, String)>,
}

/// What is answered of a table: null for what is missing.
pub open spec fn table_json(table: Seq<char>, state: Option<TableState>) -> JsonView {
    match state {
        Some(t) => JsonView::Object(
            map![
                "table"@ => JsonView::Text(table),
                "status"@ => text_or_null(opt_view(t.status)),
                "item_count"@ => int_or_null(widened(t.item_count)),
                "size_bytes"@ => int_or_null(widened(t.size_bytes)),
                "arn"@ => text_or_null(opt_view(t.arn)),
                "key_schema"@ => typed(t.key_schema@, "name"@),
            ],
        ),
        None => JsonView::Object(
            map![
                "table"@ => JsonView::Text(table),
                "status"@ => JsonView::Null,
                "item_count"@ => JsonView::Null,
                "size_bytes"@ => JsonView::Null,
                "arn"@ => JsonView::Null,
                "key_schema"@ => JsonView::Null,
            ],
        ),
    }
}

/// Answers with the description of a table.
pub fn op_ddb_describe_table_reply(table: &str, state: Option<TableState>) -> (json: Json)
    ensures
        json@ == table_json(table@, state),
{
    let mut out: Vec<(String, Json)> = Vec::new();
    put(&mut out, "table", Json::text(table));
    match state {
        Some(t) => {
            put(&mut out, "status", Json::text_or_null(borrowed(&t.status)));
            put(&mut out, "item_count", number_or_null(t.item_count));
            put(&mut out, "size_bytes", number_or_null(t.size_bytes));
            put(&mut out, "arn", Json::text_or_null(borrowed(&t.arn)));
            put(&mut out, "key_schema", typed_list(&t.key_schema, "name"));
        },
        None => {
            put(&mut out, "status", Json::Null);
            put(&mut out, "item_count", Json::Null);
            put(&mut out, "size_bytes", Json::Null);
            put(&mut out, "arn", Json::Null);
            put(&mut out, "key_schema", Json::Null);
        },
    }
    Json::Object(out)
}

/// An update: the attributes to set, by placeholders for their names and values, and the
/// expression that sets them.
#[derive(Debug)]
pub struct Update {
    pub table: String,
    pub key: Vec<(String, AttributeValue)>,
    pub names: Vec<(String, String)>,
    pub values: Vec<(String, AttributeValue)>,
    pub expression: String,
}

/// The placeholder for the name of the attribute at `i`.
pub open spec fn name_placeholder(i: nat) -> Seq<char> {
    "#a"@ + decimal(i)
}

/// The placeholder for the value of the attribute at `i`.
pub open spec fn value_placeholder(i: nat) -> Seq<char> {
    ":v"@ + decimal(i)
}

/// Assignments to the first `n` placeholders, with commas between them.
pub open spec fn assignments(n: nat) -> Seq<char>
    decreases n,
{
    if n == 0 {
        Seq::empty()
    } else {
        let last = name_placeholder((n - 1) as nat) + " = "@ + value_placeholder((n - 1) as nat);
        if n == 1 {
            last
        } else {
            assignments((n - 1) as nat) + ", "@ + last
        }
    }
}

/// An update sets each of these attributes to its value once, in the order of their names.
pub open spec fn sets_all(update: Update, updates: Map<Seq<char>, JsonView>) -> bool {
    let names = update.names@;
    let values = update.values@;
    &&& names.len() == values.len()
    &&& forall|i: int|
        0 <= i < names.len() ==> {
            &&& (#[trigger] names[i]).0@ == name_placeholder(i as nat)
            &&& values[i].0@ == value_placeholder(i as nat)
            &&& updates.contains_key(names[i].1@)
            &&& values[i].1@ == av_of(updates[names[i].1@])
        }
    &&& forall|i: int, j: int|
        0 <= i < j < names.len() ==> precedes((#[trigger] names[i]).1@, (#[trigger] names[j]).1@)
    &&& forall|k: Seq<char>|
        updates.contains_key(k) ==> exists|i: int|
            0 <= i < names.len() && (#[trigger] names[i]).1@ == k
    &&& update.expression@ == "SET "@ + assignments(names.len())
}

/// Each value of an update is shown as it was when it is read, but for whole numbers that an `i64`
/// cannot hold.
pub open spec fn values_read_back(update: Update, updates: Map<Seq<char>, JsonView>) -> bool {
    forall|i: int|
        0 <= i < update.names@.len() && fits(updates[(#[trigger] update.names@[i]).1@]) ==> json_of(
            update.values@[i].1@,
            Surface::Library,
        ) == updates[update.names@[i].1@]
}

/// What `ddb_update_item` asks for, or why it cannot be done.
pub open spec fn update_planned(opts: JsonView, update: Result<Update, String>) -> bool {
    match needed(opts, "table"@, "missing table"@) {
        Err(message) => update matches Err(m) && m@ == message,
        Ok(table) => match opts.fields_field("key"@) {
            None => update matches Err(m) && m@ == "missing key (object)"@,
            Some(key) => match opts.fields_field("updates"@) {
                None => update matches Err(m) && m@
                    == "missing updates (object of attr => value)"@,
                Some(updates) => if updates =~= Map::empty() {
                    update matches Err(m) && m@ == "updates must be non-empty"@
                } else {
                    update matches Ok(u) && u.table@ == table && item_view(u.key@) == item_of(
                        key,
                    ) && sets_all(u, updates)
                },
            },
        },
    }
}

/// Placeholders for different attributes differ, so that each stands for one name and one value.
pub proof fn law_placeholders_differ(i: nat, j: nat)
    requires
        i != j,
    ensures
        name_placeholder(i) != name_placeholder(j),
        value_placeholder(i) != value_placeholder(j),
{
    lemma_decimal(i);
    lemma_decimal(j);
    reveal_strlit("#a");
    reveal_strlit(":v");
    if name_placeholder(i) == name_placeholder(j) {
        assert(decimal(i) =~= name_placeholder(i).skip(2));
        assert(decimal(j) =~= name_placeholder(j).skip(2));
    }
    if value_placeholder(i) == value_placeholder(j) {
        assert(decimal(i) =~= value_placeholder(i).skip(2));
        assert(decimal(j) =~= value_placeholder(j).skip(2));
    }
}

/// An object without fields is an empty list of them.
proof fn lemma_empty_fields(fields: Seq<(String, Json)>)
    ensures
        fields_view(fields) =~= Map::empty() <==> fields.len() == 0,
{
    if fields.len() > 0 {
        assert(fields_view(fields).contains_key(fields.last().0@));
    }
}

/// What an update asks for is settled by the attributes that it sets: no two updates that set them
/// differ in what they send.
pub proof fn law_update_is_settled(a: Update, b: Update, updates: Map<Seq<char>, JsonView>)
    requires
        sets_all(a, updates),
        sets_all(b, updates),
    ensures
        a.expression@ == b.expression@,
        a.names@.len() == b.names@.len(),
        a.values@.len() == b.values@.len(),
        forall|i: int|
            #![trigger a.names@[i]]
            #![trigger a.values@[i]]
            0 <= i < a.names@.len() ==> {
                &&& a.names@[i].0@ == b.names@[i].0@
                &&& a.names@[i].1@ == b.names@[i].1@
                &&& a.values@[i].0@ == b.values@[i].0@
                &&& a.values@[i].1@ == b.values@[i].1@
            },
{
    lemma_same_names(a, b, updates, a.names@.len() as int);
    lemma_same_names(b, a, updates, b.names@.len() as int);
    assert forall|i: int| 0 <= i < a.names@.len() implies {
        &&& (#[trigger] a.names@[i]).1@ == b.names@[i].1@
        &&& a.values@[i].1@ == b.values@[i].1@
    } by {
        assert(b.names@[i].1@ == a.names@[i].1@);
    }
}

/// The first `n` names of two updates that set the same attributes are the same.
proof fn lemma_same_names(a: Update, b: Update, updates: Map<Seq<char>, JsonView>, n: int)
    requires
        sets_all(a, updates),
        sets_all(b, updates),
        0 <= n <= a.names@.len(),
    ensures
        n <= b.names@.len(),
        forall|i: int| 0 <= i < n ==> (#[trigger] a.names@[i]).1@ == b.names@[i].1@,
    decreases n,
{
    if n > 0 {
        let m = n - 1;
        lemma_same_names(a, b, updates, m);
        let name = a.names@[m].1@;
        assert(updates.contains_key(name));
        let k = choose|k: int| 0 <= k < b.names@.len() && (#[trigger] b.names@[k]).1@ == name;
        if k < m {
            assert(a.names@[k].1@ == name);
            assert(precedes(a.names@[k].1@, a.names@[m].1@));
            lemma_precedes_total(name, name);
        }
        let other = b.names@[m].1@;
        if other != name {
            assert(precedes(other, name));
            assert(updates.contains_key(other));
            let l = choose|l: int| 0 <= l < a.names@.len() && (#[trigger] a.names@[l]).1@ == other;
            lemma_precedes_total(other, name);
            if l < m {
                assert(b.names@[l].1@ == other);
                assert(precedes(b.names@[l].1@, b.names@[m].1@));
                lemma_precedes_total(other, other);
            } else if m < l {
                assert(precedes(a.names@[m].1@, a.names@[l].1@));
            }
        }
    }
}

/// Places in a list of fields, in the order of the names that stand there.
spec fn ordered(fields: Seq<(String, Json)>, places: Seq<usize>) -> bool {
    forall|n: int, m: int|
        0 <= n < m < places.len() ==> precedes(
            fields[#[trigger] places[n] as int].0@,
            fields[#[trigger] places[m] as int].0@,
        )
}

/// A place more, before the first one whose name comes later, leaves places in order.
proof fn lemma_place_inserted(
    fields: Seq<(String, Json)>,
    places: Seq<usize>,
    at: int,
    place: usize,
)
    requires
        0 <= at <= places.len(),
        ordered(fields, places),
        forall|n: int|
            0 <= n < at ==> precedes(
                fields[#[trigger] places[n] as int].0@,
                fields[place as int].0@,
            ),
        at < places.len() ==> precedes(fields[place as int].0@, fields[places[at] as int].0@),
    ensures
        ordered(fields, places.insert(at, place)),
{
    let after = places.insert(at, place);
    assert forall|n: int, m: int| 0 <= n < m < after.len() implies precedes(
        fields[#[trigger] after[n] as int].0@,
        fields[#[trigger] after[m] as int].0@,
    ) by {
        if n == at {
            assert(after[m] == places[m - 1]);
            if at < m - 1 {
                assert(precedes(
                    fields[places[at] as int].0@,
                    fields[places[m - 1] as int].0@,
                ));
                lemma_precedes_transitive(
                    fields[place as int].0@,
                    fields[places[at] as int].0@,
                    fields[places[m - 1] as int].0@,
                );
            }
        } else {
            let x = if n < at {
                n
            } else {
                n - 1
            };
            assert(after[n] == places[x]);
            if m != at {
                let y = if m < at {
                    m
                } else {
                    m - 1
                };
                assert(after[m] == places[y]);
            }
        }
    }
}

/// The places of the fields that count, in the order of their names.
fn places_by_name(fields: &Vec<(String, Json)>) -> (places: Vec<usize>)
    ensures
        ordered(fields@, places@),
        forall|n: int|
            0 <= n < places@.len() ==> 0 <= #[trigger] places@[n] < fields@.len() && counts(
                fields@,
                places@[n] as int,
            ),
        forall|p: int| #[trigger]
            counts(fields@, p) ==> exists|n: int| 0 <= n < places@.len() && #[trigger] places@[n] == p,
{
    let mut places: Vec<usize> = Vec::new();
    let mut i: usize = 0;
    while i < fields.len()
        invariant
            i <= fields@.len(),
            ordered(fields@, places@),
            forall|n: int|
                0 <= n < places@.len() ==> 0 <= #[trigger] places@[n] < i && counts(
                    fields@,
                    places@[n] as int,
                ),
            forall|p: int|
                0 <= p < i && #[trigger] counts(fields@, p) ==> exists|n: int|
                    0 <= n < places@.len() && #[trigger] places@[n] == p,
        decreases fields@.len() - i,
    {
        if is_last(fields, i) {
            let mut at: usize = 0;
            while at < places.len() && comes_before(
                fields[places[at]].0.as_str(),
                fields[i].0.as_str(),
            )
                invariant
                    at <= places@.len(),
                    i < fields@.len(),
                    forall|n: int|
                        0 <= n < places@.len() ==> 0 <= #[trigger] places@[n] < fields@.len(),
                    forall|n: int|
                        0 <= n < at ==> precedes(
                            fields@[#[trigger] places@[n] as int].0@,
                            fields@[i as int].0@,
                        ),
                decreases places@.len() - at,
            {
                at = at + 1;
            }
            let ghost before = places@;
            proof {
                if at < places@.len() {
                    assert(counts(fields@, before[at as int] as int));
                    assert(fields@[i as int].0@ != fields@[before[at as int] as int].0@);
                    lemma_precedes_total(
                        fields@[i as int].0@,
                        fields@[before[at as int] as int].0@,
                    );
                }
                lemma_place_inserted(fields@, before, at as int, i);
            }
            places.insert(at, i);
            proof {
                assert forall|n: int| 0 <= n < places@.len() implies 0 <= #[trigger] places@[n] < i
                    + 1 && counts(fields@, places@[n] as int) by {
                    if n < at {
                        assert(places@[n] == before[n]);
                    } else if n > at {
                        assert(places@[n] == before[n - 1]);
                    }
                }
                assert forall|p: int|
                    0 <= p < i + 1 && #[trigger] counts(fields@, p) implies exists|n: int|
                    0 <= n < places@.len() && #[trigger] places@[n] == p by {
                    if p < i {
                        let n = choose|n: int| 0 <= n < before.len() && #[trigger] before[n] == p;
                        if n < at {
                            assert(places@[n] == p);
                        } else {
                            assert(places@[n + 1] == p);
                        }
                    } else {
                        assert(places@[at as int] == p);
                    }
                }
            }
        }
        i = i + 1;
    }
    places
}

/// Gives the attributes of an update their placeholders, in the order of their names.
fn assign(
    table: String,
    key: Vec<(String, AttributeValue)>,
    fields: &Vec<(String, Json)>,
) -> (update: Update)
    ensures
        update.table == table,
        update.key == key,
        sets_all(update, fields_view(fields@)),
        values_read_back(update, fields_view(fields@)),
{
    let places = places_by_name(fields);
    let mut names: Vec<(String, String)> = Vec::new();
    let mut values: Vec<(String, AttributeValue)> = Vec::new();
    let mut parts = String::new();
    let mut n: usize = 0;
    assert(parts@ =~= assignments(0));
    while n < places.len()
        invariant
            n <= places@.len(),
            names@.len() == n,
            values@.len() == n,
            forall|i: int| 0 <= i < places@.len() ==> 0 <= #[trigger] places@[i] < fields@.len(),
            forall|i: int|
                0 <= i < n ==> {
                    let field = fields@[#[trigger] places@[i] as int];
                    &&& names@[i].0@ == name_placeholder(i as nat)
                    &&& names@[i].1@ == field.0@
                    &&& values@[i].0@ == value_placeholder(i as nat)
                    &&& values@[i].1@ == av_of(field.1@)
                    &&& fits(field.1@) ==> json_of(values@[i].1@, Surface::Library) == field.1@
                },
            parts@ == assignments(n as nat),
        decreases places@.len() - n,
    {
        let number = decimal_text(n as u64);
        let name = "#a".to_owned().concat(number.as_str());
        let value = ":v".to_owned().concat(number.as_str());
        if n > 0 {
            parts = parts.concat(", ").concat(
                name.clone().concat(" = ").concat(value.as_str()).as_str(),
            );
        } else {
            parts = name.clone().concat(" = ").concat(value.as_str());
        }
        let place = places[n];
        names.push((name, fields[place].0.clone()));
        values.push((value, json_to_av(&fields[place].1)));
        n = n + 1;
    }
    let expression = "SET ".to_owned().concat(parts.as_str());
    let update = Update { table, key, names, values, expression };
    proof {
        let map = fields_view(fields@);
        assert forall|i: int| 0 <= i < update.names@.len() implies {
            &&& (#[trigger] update.names@[i]).0@ == name_placeholder(i as nat)
            &&& update.values@[i].0@ == value_placeholder(i as nat)
            &&& map.contains_key(update.names@[i].1@)
            &&& update.values@[i].1@ == av_of(map[update.names@[i].1@])
        } by {
            lemma_counts(fields@, places@[i] as int);
        }
        assert forall|i: int|
            0 <= i < update.names@.len() && fits(
                map[(#[trigger] update.names@[i]).1@],
            ) implies json_of(update.values@[i].1@, Surface::Library)
            == map[update.names@[i].1@] by {
            lemma_counts(fields@, places@[i] as int);
        }
        assert forall|i: int, j: int| 0 <= i < j < update.names@.len() implies precedes(
            (#[trigger] update.names@[i]).1@,
            (#[trigger] update.names@[j]).1@,
        ) by {
            assert(precedes(fields@[places@[i] as int].0@, fields@[places@[j] as int].0@));
        }
        assert forall|k: Seq<char>| map.contains_key(k) implies exists|i: int|
            0 <= i < update.names@.len() && (#[trigger] update.names@[i]).1@ == k by {
            let p = lemma_field_counts(fields@, k);
            let i = choose|i: int| 0 <= i < places@.len() && #[trigger] places@[i] == p;
            assert(update.names@[i].1@ == k);
        }
    }
    update
}

/// What `ddb_update_item` asks for. What is set comes back as it was when it is fetched.
pub fn op_ddb_update_item_request(opts: &Json) -> (update: Result<Update, String>)
    ensures
        update_planned(opts@, update),
        update matches Ok(u) ==> values_read_back(u, opts@.fields_field("updates"@).unwrap()),
{
    let table = match op_ddb_table_request(opts) {
        Ok(table) => table,
        Err(message) => return Err(message),
    };
    let key = match opts.fields_at("key") {
        Some(fields) => json_obj_to_av_map(fields),
        None => return Err("missing key (object)".to_owned()),
    };
    let updates = match opts.fields_at("updates") {
        Some(fields) => fields,
        None => return Err("missing updates (object of attr => value)".to_owned()),
    };
    proof {
        lemma_empty_fields(updates@);
    }
    if updates.len() == 0 {
        return Err("updates must be non-empty".to_owned());
    }
    Ok(assign(table, key, updates))
}

/// Answers that an item was updated.
pub fn op_ddb_update_item_reply(table: &str) -> (json: Json)
    ensures
        json@ == done_json(table@, "updated"@),
{
    done(table, "updated")
}

/// Every value is an object.
pub open spec fn all_objects(items: Seq<JsonView>) -> bool {
    forall|i: int| 0 <= i < items.len() ==> (#[trigger] items[i]) is Object
}

/// Objects as items.
pub open spec fn object_items(items: Seq<JsonView>) -> Seq<Map<Seq<char>, AvView>> {
    items.map_values(|v: JsonView| item_of(v->Object_0))
}

/// The items in a list.
pub open spec fn item_list(items: Seq<Vec<(String, AttributeValue)>>) -> Seq<
    Map<Seq<char>, AvView>,
> {
    items.map_values(|item: Vec<(String, AttributeValue)>| item_view(item@))
}

/// Reads objects as items, or stops at the first value that is none.
fn read_items(list: &Vec<Json>) -> (items: Option<Vec<Vec<(String, AttributeValue)>>>)
    ensures
        match items {
            Some(found) => all_objects(items_view(list@)) && item_list(found@) == object_items(
                items_view(list@),
            ),
            None => !all_objects(items_view(list@)),
        },
{
    let mut items: Vec<Vec<(String, AttributeValue)>> = Vec::new();
    let ghost views = items_view(list@);
    let mut i: usize = 0;
    assert(item_list(items@) =~= object_items(views.take(0)));
    while i < list.len()
        invariant
            i <= list@.len(),
            views == items_view(list@),
            all_objects(views.take(i as int)),
            item_list(items@) == object_items(views.take(i as int)),
        decreases list@.len() - i,
    {
        assert(views[i as int] == list@[i as int]@);
        match &list[i] {
            Json::Object(fields) => {
                let item = json_obj_to_av_map(fields);
                proof {
                    assert(views.take(i + 1) =~= views.take(i as int).push(views[i as int]));
                    assert(item_list(items@.push(item)) =~= item_list(items@).push(
                        item_view(item@),
                    ));
                    assert(object_items(views.take(i + 1)) =~= object_items(
                        views.take(i as int),
                    ).push(item_of(views[i as int]->Object_0)));
                }
                items.push(item);
            },
            _ => {
                assert(!(views[i as int] is Object));
                return None;
            },
        }
        i = i + 1;
    }
    assert(views.take(i as int) =~= views);
    Some(items)
}

/// Which items to fetch.
#[derive(Debug)]
pub struct KeysIn {
    pub table: String,
    pub keys: Vec<Vec<(String, AttributeValue)>>,
}

impl View for KeysIn {
    type V = (Seq<char>, Seq<Map<Seq<char>, AvView>>);

    open spec fn view(&self) -> (Seq<char>, Seq<Map<Seq<char>, AvView>>) {
        (self.table@, item_list(self.keys@))
    }
}

/// What `ddb_batch_get_item` asks for: the items under `keys`, at least one of them.
pub open spec fn batch_get(opts: JsonView) -> Result<
    (Seq<char>, Seq<Map<Seq<char>, AvView>>),
    Seq<char>,
> {
    match needed(opts, "table"@, "missing table"@) {
        Err(message) => Err(message),
        Ok(table) => match opts.items_field("keys"@) {
            None => Err("missing keys (array of key objects)"@),
            Some(keys) => if keys.len() == 0 {
                Err("keys must be non-empty"@)
            } else if !all_objects(keys) {
                Err("each key must be an object"@)
            } else {
                Ok((table, object_items(keys)))
            },
        },
    }
}

/// What `ddb_batch_get_item` asks for.
pub fn op_ddb_batch_get_item_request(opts: &Json) -> (what: Result<KeysIn, String>)
    ensures
        seen(what) == batch_get(opts@),
{
    let table = match op_ddb_table_request(opts) {
        Ok(table) => table,
        Err(message) => return Err(message),
    };
    let list = match opts.items_at("keys") {
        Some(list) => list,
        None => return Err("missing keys (array of key objects)".to_owned()),
    };
    if list.len() == 0 {
        return Err("keys must be non-empty".to_owned());
    }
    match read_items(list) {
        Some(keys) => Ok(KeysIn { table, keys }),
        None => Err("each key must be an object".to_owned()),
    }
}

/// Answers with the items that were fetched; a table that the answer does not speak of has none.
pub fn op_ddb_batch_get_item_reply(
    table: &str,
    items: Option<Vec<Vec<(String, AttributeValue)>>>,
) -> (json: Json)
    ensures
        json@ == JsonView::Object(
            map![
                "table"@ => JsonView::Text(table@),
                "items"@ => match items {
                    Some(list) => items_json(list@),
                    None => JsonView::Array(Seq::empty()),
                },
            ],
        ),
{
    let list = match items {
        Some(list) => show_items(&list),
        None => {
            let none: Vec<Json> = Vec::new();
            assert(items_view(none@) =~= Seq::<JsonView>::empty());
            Json::Array(none)
        },
    };
    let mut out: Vec<(String, Json)> = Vec::new();
    put(&mut out, "table", Json::text(table));
    put(&mut out, "items", list);
    Json::Object(out)
}

/// Writes to a table.
#[derive(Debug)]
pub struct WritesIn {
    pub table: String,
    pub writes: Vec<Write>,
}

impl View for WritesIn {
    type V = (Seq<char>, Seq<WriteView>);

    open spec fn view(&self) -> (Seq<char>, Seq<WriteView>) {
        (self.table@, writes_view(self.writes@))
    }
}

/// The first value that is no object, or an empty one, stands at `at`.
pub open spec fn first_bad(items: Seq<JsonView>, at: int) -> bool {
    &&& 0 <= at < items.len()
    &&& !filled_object(items[at])
    &&& forall|i: int| 0 <= i < at ==> filled_object(#[trigger] items[i])
}

/// An object that has a field.
pub open spec fn filled_object(json: JsonView) -> bool {
    json matches JsonView::Object(fields) && !(fields =~= Map::empty())
}

/// Why these values cannot be written, if they cannot: the first of them that is no object, or that
/// is an empty one, is to blame.
pub open spec fn write_fault(
    items: Seq<JsonView>,
    not_an_object: Seq<char>,
    empty: Seq<char>,
) -> Option<Seq<char>> {
    if exists|at: int| first_bad(items, at) {
        let at = choose|at: int| first_bad(items, at);
        Some(
            if items[at] is Object {
                empty
            } else {
                not_an_object
            },
        )
    } else {
        None
    }
}

/// The values under `name`, or none.
pub open spec fn items_or_none(opts: JsonView, name: Seq<char>) -> Seq<JsonView> {
    opts.items_field(name).unwrap_or(Seq::empty())
}

/// What `ddb_batch_write_item` asks for: that the items under `puts` be stored and those under
/// `deletes` be deleted, in this order.
pub open spec fn batch_write(opts: JsonView) -> Result<(Seq<char>, Seq<WriteView>), Seq<char>> {
    match needed(opts, "table"@, "missing table"@) {
        Err(message) => Err(message),
        Ok(table) => {
            let puts = items_or_none(opts, "puts"@);
            let deletes = items_or_none(opts, "deletes"@);
            match write_fault(
                puts,
                "each put must be an item object"@,
                "item was missing: item was not specified but it is required when building PutRequest"@,
            ) {
                Some(message) => Err(message),
                None => match write_fault(
                    deletes,
                    "each delete must be a key object"@,
                    "key was missing: key was not specified but it is required when building DeleteRequest"@,
                ) {
                    Some(message) => Err(message),
                    None => if puts.len() + deletes.len() == 0 {
                        Err("provide puts and/or deletes"@)
                    } else {
                        Ok(
                            (
                                table,
                                object_items(puts).map_values(
                                    |m: Map<Seq<char>, AvView>| WriteView::Put(m),
                                ) + object_items(deletes).map_values(
                                    |m: Map<Seq<char>, AvView>| WriteView::Delete(m),
                                ),
                            ),
                        )
                    },
                },
            }
        },
    }
}

/// The first value to blame is unique.
proof fn lemma_first_bad(
    items: Seq<JsonView>,
    not_an_object: Seq<char>,
    empty: Seq<char>,
    at: int,
)
    requires
        first_bad(items, at),
    ensures
        write_fault(items, not_an_object, empty) == Some(
            if items[at] is Object {
                empty
            } else {
                not_an_object
            },
        ),
{
    let other = choose|other: int| first_bad(items, other);
    assert(first_bad(items, other));
    if other < at {
        assert(filled_object(items[other]));
    } else if at < other {
        assert(filled_object(items[at]));
    }
}

/// The writes that objects stand for: items to put, or keys of items to delete.
pub open spec fn writes_of(items: Seq<JsonView>, puts: bool) -> Seq<WriteView> {
    items.map_values(
        |v: JsonView|
            if puts {
                WriteView::Put(item_of(v->Object_0))
            } else {
                WriteView::Delete(item_of(v->Object_0))
            },
    )
}

/// The writes from `from` on put items that are shown as the objects that they were made of when
/// they are read.
pub open spec fn puts_read_back(writes: Seq<Write>, items: Seq<JsonView>, from: int) -> bool {
    forall|i: int|
        0 <= i < items.len() ==> ((#[trigger] writes[from + i])@ matches WriteView::Put(item)
            ==> reads_back(item, items[i]->Object_0))
}

/// Adds the writes that objects stand for.
fn add_writes(
    writes: &mut Vec<Write>,
    list: &Vec<Json>,
    puts: bool,
    not_an_object: &str,
    empty: &str,
) -> (fault: Option<String>)
    ensures
        match fault {
            Some(message) => write_fault(items_view(list@), not_an_object@, empty@) == Some(
                message@,
            ),
            None => write_fault(items_view(list@), not_an_object@, empty@) is None && writes_view(
                final(writes)@,
            ) == writes_view(old(writes)@) + writes_of(items_view(list@), puts)
                && puts_read_back(final(writes)@, items_view(list@), old(writes)@.len() as int)
                && old(writes)@ == final(writes)@.take(old(writes)@.len() as int),
        },
{
    let ghost views = items_view(list@);
    let ghost whole = writes_of(views, puts);
    let mut i: usize = 0;
    assert(writes_view(writes@) =~= writes_view(old(writes)@) + whole.take(0));
    while i < list.len()
        invariant
            i <= list@.len(),
            views == items_view(list@),
            whole == writes_of(views, puts),
            forall|j: int| 0 <= j < i ==> filled_object(#[trigger] views[j]),
            writes_view(writes@) == writes_view(old(writes)@) + whole.take(i as int),
            writes@.len() == old(writes)@.len() + i,
            puts_read_back(writes@, views.take(i as int), old(writes)@.len() as int),
            old(writes)@ == writes@.take(old(writes)@.len() as int),
        decreases list@.len() - i,
    {
        assert(views[i as int] == list@[i as int]@);
        match &list[i] {
            Json::Object(fields) => {
                proof {
                    lemma_empty_fields(fields@);
                }
                if fields.len() == 0 {
                    proof {
                        assert(first_bad(views, i as int));
                        lemma_first_bad(views, not_an_object@, empty@, i as int);
                    }
                    return Some(empty.to_owned());
                }
                let item = json_obj_to_av_map(fields);
                let write = if puts {
                    Write::Put(item)
                } else {
                    Write::Delete(item)
                };
                proof {
                    assert(writes_view(writes@.push(write)) =~= writes_view(writes@).push(
                        write@,
                    ));
                    assert(whole.take(i + 1) =~= whole.take(i as int).push(whole[i as int]));
                    assert(writes_view(old(writes)@) + whole.take(i + 1) =~= (writes_view(
                        old(writes)@,
                    ) + whole.take(i as int)).push(whole[i as int]));
                }
                let ghost before = writes@;
                writes.push(write);
                proof {
                    let n = old(writes)@.len() as int;
                    assert(writes@.take(n) =~= before.take(n));
                    assert forall|j: int|
                        0 <= j < views.take(i + 1).len() implies (
                    (#[trigger] writes@[n + j])@ matches WriteView::Put(put_item) ==> reads_back(
                        put_item,
                        views.take(i + 1)[j]->Object_0,
                    )) by {
                        if j < i {
                            assert(writes@[n + j] == before[n + j]);
                            assert(views.take(i + 1)[j] == views.take(i as int)[j]);
                        }
                    }
                }
            },
            _ => {
                proof {
                    assert(first_bad(views, i as int));
                    lemma_first_bad(views, not_an_object@, empty@, i as int);
                }
                return Some(not_an_object.to_owned());
            },
        }
        i = i + 1;
    }
    assert(whole.take(i as int) =~= whole);
    assert(views.take(i as int) =~= views);
    None
}

/// What `ddb_batch_write_item` asks for. What is stored comes back as it was when it is fetched.
pub fn op_ddb_batch_write_item_request(opts: &Json) -> (what: Result<WritesIn, String>)
    ensures
        seen(what) == batch_write(opts@),
        what matches Ok(w) ==> puts_read_back(w.writes@, items_or_none(opts@, "puts"@), 0),
{
    let table = match op_ddb_table_request(opts) {
        Ok(table) => table,
        Err(message) => return Err(message),
    };
    let none: Vec<Json> = Vec::new();
    assert(items_view(none@) =~= Seq::<JsonView>::empty());
    let puts = match opts.items_at("puts") {
        Some(list) => list,
        None => &none,
    };
    let deletes = match opts.items_at("deletes") {
        Some(list) => list,
        None => &none,
    };
    let ghost put_views = items_view(puts@);
    let ghost delete_views = items_view(deletes@);
    let mut writes: Vec<Write> = Vec::new();
    assert(writes_view(writes@) =~= Seq::<WriteView>::empty());
    if let Some(message) = add_writes(
        &mut writes,
        puts,
        true,
        "each put must be an item object",
        "item was missing: item was not specified but it is required when building PutRequest",
    ) {
        return Err(message);
    }
    let ghost stored = writes@;
    if let Some(message) = add_writes(
        &mut writes,
        deletes,
        false,
        "each delete must be a key object",
        "key was missing: key was not specified but it is required when building DeleteRequest",
    ) {
        return Err(message);
    }
    proof {
        assert(writes_of(put_views, true) =~= object_items(put_views).map_values(
            |m: Map<Seq<char>, AvView>| WriteView::Put(m),
        ));
        assert(writes_of(delete_views, false) =~= object_items(delete_views).map_values(
            |m: Map<Seq<char>, AvView>| WriteView::Delete(m),
        ));
        assert(writes_view(writes@) =~= writes_of(put_views, true) + writes_of(
            delete_views,
            false,
        ));
        assert(writes@.len() == writes_view(writes@).len());
        assert(stored.len() == writes_view(stored).len());
        assert forall|j: int| 0 <= j < put_views.len() implies ((#[trigger] writes@[0
            + j])@ matches WriteView::Put(item) ==> reads_back(item, put_views[j]->Object_0)) by {
            assert(stored[0 + j] == writes@[j]);
        }
    }
    if writes.len() == 0 {
        return Err("provide puts and/or deletes".to_owned());
    }
    Ok(WritesIn { table, writes })
}

/// Answers with the number of writes.
pub fn op_ddb_batch_write_item_reply(table: &str, written: usize) -> (json: Json)
    ensures
        json@ == JsonView::Object(
            map!["table"@ => JsonView::Text(table@), "written"@ => int_json(written as int)],
        ),
{
    let mut out: Vec<(String, Json)> = Vec::new();
    put(&mut out, "table", Json::text(table));
    put(&mut out, "written", Json::count(written as u64));
    Json::Object(out)
}

}
