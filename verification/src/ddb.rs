//! The DynamoDB commands: what each asks of the service, and what it shows of the answer. Items are
//! plain JSON on both sides.
use vstd::prelude::*;
use vstd::string::*;

use crate::attribute::attribute_json;
use crate::attribute::av_of;
use crate::attribute::fields_of;
use crate::attribute::fits;
use crate::attribute::item_json;
use crate::attribute::item_of;
use crate::attribute::item_view;
use crate::attribute::json_of;
use crate::attribute::json_to_attribute_value;
use crate::attribute::writable;
use crate::attribute::AttributeValue;
use crate::attribute::AvView;
use crate::attribute::Surface;
use crate::json::fields_view;
use crate::json::int_json;
use crate::json::int_or_null;
use crate::json::items_view;
use crate::json::lemma_items_push;
use crate::json::put as put_field;
use crate::json::text_or_null;
use crate::json::Json;
use crate::json::JsonView;
use crate::options::borrowed;
use crate::options::opt_view;
use crate::options::strings_view;
use crate::paging::left_after;
use crate::paging::shown;
use crate::paging::Quota;
use crate::s3::widened;
use crate::text::same;
use crate::text::str_view;
use crate::text::trim;
use crate::text::trimmed;
use crate::wire::parse_json;
use crate::wire::parsed_json;

verus! {

/// A DynamoDB command.
#[derive(Debug)]
#[allow(inconsistent_fields)]
pub enum DdbCmd {
    /// Fetch an item by its key.
    Get { table: String, key: String, consistent: bool },
    /// Insert or overwrite an item; `-` stands for a line of the standard input.
    Put { table: String, item: String },
    /// Delete an item by its key.
    Delete { table: String, key: String },
    /// Run a query.
    Query {
        table: String,
        expr: String,
        vals: Option<String>,
        names: Option<String>,
        index: Option<String>,
        filter: Option<String>,
        limit: Option<i32>,
        consistent: bool,
    },
    /// Scan a table.
    Scan {
        table: String,
        filter: Option<String>,
        vals: Option<String>,
        names: Option<String>,
        index: Option<String>,
        limit: Option<usize>,
        page_size: Option<i32>,
    },
    /// Put and delete items in bulk, one to a line: an item, or its key under `_delete`.
    BatchWrite { table: String },
    /// List the tables.
    Tables,
    /// Describe a table.
    Describe { table: String },
}

/// What a command asks for.
#[derive(Debug)]
#[allow(inconsistent_fields)]
pub enum DdbRequest {
    Get { table: String, key: Vec<(String, AttributeValue)>, consistent: bool },
    Put { table: String, item: Vec<(String, AttributeValue)> },
    /// Put the item on the next line of the standard input.
    PutLine { table: String },
    Delete { table: String, key: Vec<(String, AttributeValue)> },
    Query {
        table: String,
        expr: String,
        vals: Option<Vec<(String, AttributeValue)>>,
        names: Option<Vec<(String, String)>>,
        index: Option<String>,
        filter: Option<String>,
        limit: Option<i32>,
        consistent: bool,
    },
    Scan {
        table: String,
        filter: Option<String>,
        vals: Option<Vec<(String, AttributeValue)>>,
        names: Option<Vec<(String, String)>>,
        index: Option<String>,
        limit: Option<usize>,
        page_size: Option<i32>,
    },
    BatchWrite { table: String },
    Tables,
    Describe { table: String },
}

/// Plain JSON as an attribute. What was written comes back as it was when it is read, but for
/// whole numbers that an `i64` cannot hold.
pub fn json_to_av(v: &Json) -> (av: AttributeValue)
    ensures
        av@ == av_of(v@),
        fits(v@) ==> json_of(av@, Surface::Command) == v@,
{
    json_to_attribute_value(v)
}

/// An attribute as the commands show it. What plain JSON can write is written as it was when it is
/// sent back.
pub fn av_to_json(av: &AttributeValue) -> (json: Json)
    ensures
        json@ == json_of(av@, Surface::Command),
        writable(av@) ==> av_of(json@) == av@,
{
    attribute_json(av, Surface::Command)
}

/// The item in a value, which must be an object.
pub open spec fn item_in(json: JsonView) -> Result<Map<Seq<char>, AvView>, Seq<char>> {
    match json {
        JsonView::Object(fields) => Ok(item_of(fields)),
        _ => Err("expected a JSON object"@),
    }
}

/// The item in a JSON text.
pub open spec fn item_in_text(text: Seq<char>) -> Result<Map<Seq<char>, AvView>, Seq<char>> {
    match parsed_json(text) {
        Ok(json) => item_in(json),
        Err(message) => Err("parsing JSON object: "@ + message),
    }
}

/// An item that was read, or the message of an error.
pub open spec fn item_seen(item: Result<Vec<(String, AttributeValue)>, String>) -> Result<
    Map<Seq<char>, AvView>,
    Seq<char>,
> {
    match item {
        Ok(fields) => Ok(item_view(fields@)),
        Err(message) => Err(message@),
    }
}

/// The item in a value that was read. An item that was written comes back as it was when it is
/// read, but for whole numbers that an `i64` cannot hold.
pub fn item_of_json(v: &Json) -> (item: Result<Vec<(String, AttributeValue)>, String>)
    ensures
        item_seen(item) == item_in(v@),
        item matches Ok(fields) ==> (fits(v@) ==> JsonView::Object(
            fields_of(item_view(fields@), Surface::Command),
        ) == v@),
{
    match v {
        Json::Object(fields) => {
            let item = crate::attribute::json_obj_to_av_map(fields);
            assert(fits(v@) ==> fields_of(item_view(item@), Surface::Command) == fields_view(
                fields@,
            ));
            Ok(item)
        },
        _ => Err("expected a JSON object".to_owned()),
    }
}

/// The item in a JSON text.
pub fn json_obj_to_av_map(s: &str) -> (item: Result<Vec<(String, AttributeValue)>, String>)
    ensures
        item_seen(item) == item_in_text(s@),
{
    match parse_json(s) {
        Ok(json) => item_of_json(&json),
        Err(message) => Err("parsing JSON object: ".to_owned().concat(message.as_str())),
    }
}

/// The attributes of an item as the commands show them.
pub fn av_map_to_json(m: &Vec<(String, AttributeValue)>) -> (json: Json)
    ensures
        json@ == JsonView::Object(fields_of(item_view(m@), Surface::Command)),
{
    item_json(m, Surface::Command)
}

/// The item in an optional JSON text.
pub open spec fn optional_item(text: Option<Seq<char>>) -> Result<
    Option<Map<Seq<char>, AvView>>,
    Seq<char>,
> {
    match text {
        None => Ok(None),
        Some(t) => match item_in_text(t) {
            Ok(item) => Ok(Some(item)),
            Err(message) => Err(message),
        },
    }
}

/// An optional item that was read.
pub open spec fn optional_item_view(item: Option<Vec<(String, AttributeValue)>>) -> Option<
    Map<Seq<char>, AvView>,
> {
    match item {
        Some(fields) => Some(item_view(fields@)),
        None => None,
    }
}

/// The values of placeholders, where they are given.
pub fn parse_vals(s: Option<&str>) -> (vals: Result<Option<Vec<(String, AttributeValue)>>, String>)
    ensures
        match vals {
            Ok(item) => optional_item(str_view(s)) == Ok::<
                Option<Map<Seq<char>, AvView>>,
                Seq<char>,
            >(optional_item_view(item)),
            Err(message) => optional_item(str_view(s)) == Err::<
                Option<Map<Seq<char>, AvView>>,
                Seq<char>,
            >(message@),
        },
{
    match s {
        None => Ok(None),
        Some(raw) => match json_obj_to_av_map(raw) {
            Ok(item) => Ok(Some(item)),
            Err(message) => Err(message),
        },
    }
}

/// What names stand for, by name; where a name is listed twice, the later one counts.
pub open spec fn names_view(names: Seq<(String, String)>) -> Map<Seq<char>, Seq<char>>
    decreases names.len(),
{
    if names.len() == 0 {
        Map::empty()
    } else {
        names_view(names.drop_last()).insert(names.last().0@, names.last().1@)
    }
}

/// The names in the fields of an object. A value that is not a text counts as an empty one.
pub open spec fn names_of(fields: Map<Seq<char>, JsonView>) -> Map<Seq<char>, Seq<char>> {
    fields.map_values(|v: JsonView| v.text().unwrap_or(""@))
}

/// The names in a value, which must be an object.
pub open spec fn names_in(json: JsonView) -> Result<Map<Seq<char>, Seq<char>>, Seq<char>> {
    match json {
        JsonView::Object(fields) => Ok(names_of(fields)),
        _ => Err("--names must be a JSON object"@),
    }
}

/// The names in an optional JSON text.
pub open spec fn optional_names(text: Option<Seq<char>>) -> Result<
    Option<Map<Seq<char>, Seq<char>>>,
    Seq<char>,
> {
    match text {
        None => Ok(None),
        Some(t) => match parsed_json(t) {
            Err(message) => Err("parsing --names JSON: "@ + message),
            Ok(json) => match names_in(json) {
                Ok(names) => Ok(Some(names)),
                Err(message) => Err(message),
            },
        },
    }
}

/// Optional names that were read.
pub open spec fn optional_names_view(names: Option<Vec<(String, String)>>) -> Option<
    Map<Seq<char>, Seq<char>>,
> {
    match names {
        Some(list) => Some(names_view(list@)),
        None => None,
    }
}

/// The names in a value that was read.
pub fn names_of_json(v: &Json) -> (names: Result<Vec<(String, String)>, String>)
    ensures
        match names {
            Ok(list) => names_in(v@) == Ok::<Map<Seq<char>, Seq<char>>, Seq<char>>(
                names_view(list@),
            ),
            Err(message) => names_in(v@) == Err::<Map<Seq<char>, Seq<char>>, Seq<char>>(message@),
        },
{
    let fields = match v {
        Json::Object(fields) => fields,
        _ => return Err("--names must be a JSON object".to_owned()),
    };
    let mut list: Vec<(String, String)> = Vec::new();
    let mut i: usize = 0;
    assert(fields@.take(0) =~= Seq::<(String, Json)>::empty());
    assert(names_of(Map::empty()) =~= Map::empty());
    while i < fields.len()
        invariant
            i <= fields@.len(),
            names_view(list@) == names_of(fields_view(fields@.take(i as int))),
        decreases fields@.len() - i,
    {
        let ghost before = list@;
        let ghost sofar = fields_view(fields@.take(i as int));
        let text = fields[i].1.as_str().unwrap_or("");
        list.push((fields[i].0.clone(), text.to_owned()));
        proof {
            let (k, v) = (fields@[i as int].0@, fields@[i as int].1@);
            assert(list@.drop_last() =~= before);
            assert(fields@.take(i + 1).drop_last() =~= fields@.take(i as int));
            assert(names_of(sofar.insert(k, v)) =~= names_of(sofar).insert(
                k,
                v.text().unwrap_or(""@),
            ));
        }
        i = i + 1;
    }
    assert(fields@.take(i as int) =~= fields@);
    Ok(list)
}

/// The names that placeholders stand for, where they are given.
pub fn parse_names(s: Option<&str>) -> (names: Result<Option<Vec<(String, String)>>, String>)
    ensures
        match names {
            Ok(list) => optional_names(str_view(s)) == Ok::<
                Option<Map<Seq<char>, Seq<char>>>,
                Seq<char>,
            >(optional_names_view(list)),
            Err(message) => optional_names(str_view(s)) == Err::<
                Option<Map<Seq<char>, Seq<char>>>,
                Seq<char>,
            >(message@),
        },
{
    match s {
        None => Ok(None),
        Some(raw) => match parse_json(raw) {
            Err(message) => Err("parsing --names JSON: ".to_owned().concat(message.as_str())),
            Ok(json) => match names_of_json(&json) {
                Ok(list) => Ok(Some(list)),
                Err(message) => Err(message),
            },
        },
    }
}

/// The request failed with this message.
pub open spec fn refused(plan: Result<DdbRequest, String>, message: Seq<char>) -> bool {
    plan matches Err(m) && m@ == message
}

/// What a command asks for, or why it cannot be done. Values are read before names.
pub open spec fn planned(cmd: DdbCmd, plan: Result<DdbRequest, String>) -> bool {
    match cmd {
        DdbCmd::Get { table, key, consistent } => match item_in_text(key@) {
            Err(message) => refused(plan, message),
            Ok(item) => plan matches Ok(DdbRequest::Get { table: t, key: k, consistent: c }) && t
                == table && item_view(k@) == item && c == consistent,
        },
        DdbCmd::Put { table, item } => if item@ == "-"@ {
            plan matches Ok(DdbRequest::PutLine { table: t }) && t == table
        } else {
            match item_in_text(item@) {
                Err(message) => refused(plan, message),
                Ok(fields) => plan matches Ok(DdbRequest::Put { table: t, item: i }) && t == table
                    && item_view(i@) == fields,
            }
        },
        DdbCmd::Delete { table, key } => match item_in_text(key@) {
            Err(message) => refused(plan, message),
            Ok(item) => plan matches Ok(DdbRequest::Delete { table: t, key: k }) && t == table
                && item_view(k@) == item,
        },
        DdbCmd::Query { table, expr, vals, names, index, filter, limit, consistent } => match (
            optional_item(opt_view(vals)),
            optional_names(opt_view(names)),
        ) {
            (Err(message), _) => refused(plan, message),
            (Ok(_), Err(message)) => refused(plan, message),
            (Ok(item), Ok(aliases)) => {
                &&& plan matches Ok(
                    DdbRequest::Query {
                        table: t,
                        expr: e,
                        vals: v,
                        names: n,
                        index: i,
                        filter: f,
                        limit: l,
                        consistent: c,
                    },
                )
                &&& t == table && e == expr && i == index && f == filter && l == limit && c
                    == consistent
                &&& optional_item_view(v) == item
                &&& optional_names_view(n) == aliases
            },
        },
        DdbCmd::Scan { table, filter, vals, names, index, limit, page_size } => match (
            optional_item(opt_view(vals)),
            optional_names(opt_view(names)),
        ) {
            (Err(message), _) => refused(plan, message),
            (Ok(_), Err(message)) => refused(plan, message),
            (Ok(item), Ok(aliases)) => {
                &&& plan matches Ok(
                    DdbRequest::Scan {
                        table: t,
                        filter: f,
                        vals: v,
                        names: n,
                        index: i,
                        limit: l,
                        page_size: p,
                    },
                )
                &&& t == table && i == index && f == filter && l == limit && p == page_size
                &&& optional_item_view(v) == item
                &&& optional_names_view(n) == aliases
            },
        },
        DdbCmd::BatchWrite { table } => plan matches Ok(DdbRequest::BatchWrite { table: t }) && t
            == table,
        DdbCmd::Tables => plan matches Ok(DdbRequest::Tables),
        DdbCmd::Describe { table } => plan matches Ok(DdbRequest::Describe { table: t }) && t
            == table,
    }
}

/// What a command asks for.
pub fn dispatch(cmd: DdbCmd) -> (plan: Result<DdbRequest, String>)
    ensures
        planned(cmd, plan),
{
    match cmd {
        DdbCmd::Get { table, key, consistent } => match json_obj_to_av_map(key.as_str()) {
            Ok(item) => Ok(DdbRequest::Get { table, key: item, consistent }),
            Err(message) => Err(message),
        },
        DdbCmd::Put { table, item } => if same(item.as_str(), "-") {
            Ok(DdbRequest::PutLine { table })
        } else {
            match json_obj_to_av_map(item.as_str()) {
                Ok(fields) => Ok(DdbRequest::Put { table, item: fields }),
                Err(message) => Err(message),
            }
        },
        DdbCmd::Delete { table, key } => match json_obj_to_av_map(key.as_str()) {
            Ok(item) => Ok(DdbRequest::Delete { table, key: item }),
            Err(message) => Err(message),
        },
        DdbCmd::Query { table, expr, vals, names, index, filter, limit, consistent } => {
            let vals = match parse_vals(borrowed(&vals)) {
                Ok(item) => item,
                Err(message) => return Err(message),
            };
            let names = match parse_names(borrowed(&names)) {
                Ok(list) => list,
                Err(message) => return Err(message),
            };
            Ok(DdbRequest::Query { table, expr, vals, names, index, filter, limit, consistent })
        },
        DdbCmd::Scan { table, filter, vals, names, index, limit, page_size } => {
            let vals = match parse_vals(borrowed(&vals)) {
                Ok(item) => item,
                Err(message) => return Err(message),
            };
            let names = match parse_names(borrowed(&names)) {
                Ok(list) => list,
                Err(message) => return Err(message),
            };
            Ok(DdbRequest::Scan { table, filter, vals, names, index, limit, page_size })
        },
        DdbCmd::BatchWrite { table } => Ok(DdbRequest::BatchWrite { table }),
        DdbCmd::Tables => Ok(DdbRequest::Tables),
        DdbCmd::Describe { table } => Ok(DdbRequest::Describe { table }),
    }
}

/// The item on a line of the standard input.
pub fn put_line(line: &str) -> (item: Result<Vec<(String, AttributeValue)>, String>)
    ensures
        item_seen(item) == item_in_text(trimmed(line@)),
{
    json_obj_to_av_map(trim(line).as_str())
}

/// Shows an item that was fetched; where there is none, null.
pub fn get(item: Option<Vec<(String, AttributeValue)>>) -> (json: Json)
    ensures
        json@ == match item {
            Some(fields) => JsonView::Object(fields_of(item_view(fields@), Surface::Command)),
            None => JsonView::Null,
        },
{
    match item {
        Some(fields) => av_map_to_json(&fields),
        None => Json::Null,
    }
}

/// Shows that a request was carried out.
pub fn done() -> (json: Json)
    ensures
        json@ == JsonView::Object(map!["ok"@ => JsonView::Bool(true)]),
{
    let mut out: Vec<(String, Json)> = Vec::new();
    put_field(&mut out, "ok", Json::Bool(true));
    Json::Object(out)
}

/// The items on a page, as the commands show them.
pub open spec fn rows_of(items: Seq<Vec<(String, AttributeValue)>>) -> Seq<JsonView> {
    items.map_values(
        |item: Vec<(String, AttributeValue)>|
            JsonView::Object(fields_of(item_view(item@), Surface::Command)),
    )
}

/// The items of a query or a scan under way.
pub struct Rows {
    pub quota: Quota,
}

/// How many rows may be shown under a limit: at least one.
pub open spec fn at_least_one(limit: Option<int>) -> Option<int> {
    match limit {
        Some(l) => Some(
            if l < 1 {
                1
            } else {
                l
            },
        ),
        None => None,
    }
}

/// The key to go on from, if there is one and more may be shown.
pub open spec fn next_key(
    last: Option<Map<Seq<char>, AvView>>,
    left: Option<usize>,
) -> Option<Map<Seq<char>, AvView>> {
    match last {
        Some(key) => if left == Some(0usize) || key =~= Map::empty() {
            None
        } else {
            Some(key)
        },
        None => None,
    }
}

/// A machine number as an integer.
pub open spec fn size_of(limit: Option<usize>) -> Option<int> {
    match limit {
        Some(l) => Some(l as int),
        None => None,
    }
}

/// An item without attributes is an empty list of them.
proof fn lemma_empty_item(fields: Seq<(String, AttributeValue)>)
    ensures
        item_view(fields) =~= Map::empty() <==> fields.len() == 0,
{
    if fields.len() > 0 {
        assert(item_view(fields).contains_key(fields.last().0@));
    }
}

impl Rows {
    /// The rows of a query.
    pub fn of_query(limit: Option<i32>) -> (rows: Rows)
        ensures
            size_of(rows.quota.left) == at_least_one(
                match limit {
                    Some(l) => Some(l as int),
                    None => None,
                },
            ),
    {
        let left: Option<usize> = match limit {
            Some(l) => Some(
                if l < 1 {
                    1
                } else {
                    l as usize
                },
            ),
            None => None,
        };
        Rows { quota: Quota { left } }
    }

    /// The rows of a scan.
    pub fn of_scan(limit: Option<usize>) -> (rows: Rows)
        ensures
            size_of(rows.quota.left) == at_least_one(size_of(limit)),
    {
        let left: Option<usize> = match limit {
            Some(l) => Some(
                if l < 1 {
                    1
                } else {
                    l
                },
            ),
            None => None,
        };
        Rows { quota: Quota { left } }
    }

    /// Shows what may be shown of a page, and gives the key to go on from, if there is one.
    pub fn page(
        &mut self,
        items: &Vec<Vec<(String, AttributeValue)>>,
        last_key: Option<Vec<(String, AttributeValue)>>,
    ) -> (shows: (Vec<Json>, Option<Vec<(String, AttributeValue)>>))
        ensures
            items_view(shows.0@) == rows_of(items@).take(
                shown(old(self).quota.left, items@.len()) as int,
            ),
            final(self).quota.left == left_after(old(self).quota.left, items@.len()),
            optional_item_view(shows.1) == next_key(
                optional_item_view(last_key),
                final(self).quota.left,
            ),
            old(self).quota.left is None ==> {
                &&& final(self).quota.left is None
                &&& shows.0@.len() == items@.len()
                &&& shows.1 is Some <==> (last_key matches Some(key) && key@.len() > 0)
            },
            shows.1 is Some ==> shows.1 == last_key,
    {
        let mut rows: Vec<Json> = Vec::new();
        let ghost whole = rows_of(items@);
        let mut i: usize = 0;
        while i < items.len()
            invariant
                i <= items@.len(),
                whole == rows_of(items@),
                items_view(rows@) == whole.take(i as int),
            decreases items@.len() - i,
        {
            let row = av_map_to_json(&items[i]);
            proof {
                lemma_items_push(rows@, row);
                assert(whole.take(i + 1) =~= whole.take(i as int).push(whole[i as int]));
            }
            rows.push(row);
            i = i + 1;
        }
        assert(whole.take(i as int) =~= whole);
        assert(rows@.len() == items_view(rows@).len());
        let lines = self.quota.take(rows);
        assert(items_view(lines@) =~= whole.take(lines@.len() as int));
        if self.quota.spent() {
            return (lines, None);
        }
        match last_key {
            Some(key) => {
                proof {
                    lemma_empty_item(key@);
                }
                if key.len() == 0 {
                    (lines, None)
                } else {
                    (lines, Some(key))
                }
            },
            None => (lines, None),
        }
    }
}

/// A write as contracts speak of it.
pub ghost enum WriteView {
    Put(Map<Seq<char>, AvView>),
    Delete(Map<Seq<char>, AvView>),
}

/// A write in a batch: an item to put, or the key of one to delete.
#[derive(Debug)]
pub enum Write {
    Put(Vec<(String, AttributeValue)>),
    Delete(Vec<(String, AttributeValue)>),
}

impl View for Write {
    type V = WriteView;

    open spec fn view(&self) -> WriteView {
        match self {
            Write::Put(item) => WriteView::Put(item_view(item@)),
            Write::Delete(key) => WriteView::Delete(item_view(key@)),
        }
    }
}

/// The writes in a list.
pub open spec fn writes_view(writes: Seq<Write>) -> Seq<WriteView> {
    writes.map_values(|w: Write| w@)
}

/// The write that a value stands for.
pub open spec fn write_in(json: JsonView) -> Result<WriteView, Seq<char>> {
    match json {
        JsonView::Object(fields) => match json.field("_delete"@) {
            Some(JsonView::Object(key)) => Ok(WriteView::Delete(item_of(key))),
            Some(_) => Err("_delete must be an object"@),
            None => Ok(WriteView::Put(item_of(fields))),
        },
        _ => Err("each NDJSON line must be a JSON object (item or {_delete: key})"@),
    }
}

/// The write that a line stands for; a blank one stands for none.
pub open spec fn write_on_line(line: Seq<char>) -> Result<Option<WriteView>, Seq<char>> {
    if trimmed(line).len() == 0 {
        Ok(None)
    } else {
        match parsed_json(line) {
            Err(message) => Err("parsing NDJSON line: "@ + message),
            Ok(json) => match write_in(json) {
                Ok(write) => Ok(Some(write)),
                Err(message) => Err(message),
            },
        }
    }
}

/// The write that a value stands for.
pub fn write_of_json(v: &Json) -> (write: Result<Write, String>)
    ensures
        match write {
            Ok(w) => write_in(v@) == Ok::<WriteView, Seq<char>>(w@),
            Err(message) => write_in(v@) == Err::<WriteView, Seq<char>>(message@),
        },
{
    let fields = match v {
        Json::Object(fields) => fields,
        _ => return Err(
            "each NDJSON line must be a JSON object (item or {_delete: key})".to_owned(),
        ),
    };
    match v.get("_delete") {
        Some(Json::Object(key)) => Ok(Write::Delete(crate::attribute::json_obj_to_av_map(key))),
        Some(_) => Err("_delete must be an object".to_owned()),
        None => Ok(Write::Put(crate::attribute::json_obj_to_av_map(fields))),
    }
}

/// The number of writes in a full batch.
pub const BATCH_SIZE: usize = 25;

/// How long to wait before what was left of a batch is sent again, in milliseconds.
pub const RETRY_DELAY: u64 = 250;

/// One more write: the batch that it fills, if it fills one, and the writes that wait.
pub open spec fn filled(waiting: Seq<WriteView>, write: WriteView) -> (
    Option<Seq<WriteView>>,
    Seq<WriteView>,
) {
    let all = waiting.push(write);
    if all.len() == BATCH_SIZE {
        (Some(all), Seq::empty())
    } else {
        (None, all)
    }
}

/// The batches that a run of writes fills, and the writes that wait behind them.
pub open spec fn batches(writes: Seq<WriteView>) -> (Seq<Seq<WriteView>>, Seq<WriteView>)
    decreases writes.len(),
{
    if writes.len() == 0 {
        (Seq::empty(), Seq::empty())
    } else {
        let (sent, waiting) = batches(writes.drop_last());
        match filled(waiting, writes.last()) {
            (Some(batch), rest) => (sent.push(batch), rest),
            (None, rest) => (sent, rest),
        }
    }
}

/// Batches, one behind the other.
pub open spec fn in_order(sent: Seq<Seq<WriteView>>) -> Seq<WriteView>
    decreases sent.len(),
{
    if sent.len() == 0 {
        Seq::empty()
    } else {
        in_order(sent.drop_last()) + sent.last()
    }
}

/// Every write is sent once and in its turn; every batch but the last is full, and that one is not.
pub proof fn law_batches(writes: Seq<WriteView>)
    ensures
        in_order(batches(writes).0) + batches(writes).1 == writes,
        forall|i: int|
            0 <= i < batches(writes).0.len() ==> (#[trigger] batches(writes).0[i]).len()
                == BATCH_SIZE,
        batches(writes).1.len() < BATCH_SIZE,
        batches(writes).0.len() * BATCH_SIZE + batches(writes).1.len() == writes.len(),
    decreases writes.len(),
{
    if writes.len() == 0 {
        assert(in_order(batches(writes).0) + batches(writes).1 =~= writes);
    } else {
        law_batches(writes.drop_last());
        let (sent, waiting) = batches(writes.drop_last());
        let all = waiting.push(writes.last());
        assert(writes =~= writes.drop_last().push(writes.last()));
        assert(in_order(sent) + all =~= writes);
        if all.len() == BATCH_SIZE {
            assert(sent.push(all).drop_last() =~= sent);
            assert(in_order(sent.push(all)) + Seq::<WriteView>::empty() =~= in_order(sent) + all);
        }
    }
}

/// The least of a count and the greatest number that a `u64` can hold.
pub open spec fn capped(n: int) -> int {
    if n > u64::MAX {
        u64::MAX as int
    } else {
        n
    }
}

/// Writes that are collected into batches.
pub struct BatchWriter {
    batch: Vec<Write>,
    sent: u64,
}

impl BatchWriter {
    #[verifier::type_invariant]
    spec fn not_full(self) -> bool {
        self.batch@.len() < BATCH_SIZE
    }

    /// The writes that wait.
    pub closed spec fn waiting(&self) -> Seq<WriteView> {
        writes_view(self.batch@)
    }

    /// How many writes were handed out in batches.
    pub closed spec fn sent(&self) -> u64 {
        self.sent
    }

    /// Nothing waits, and nothing was sent.
    pub fn new() -> (writer: BatchWriter)
        ensures
            writer.waiting() == Seq::<WriteView>::empty(),
            writer.sent() == 0,
    {
        let writer = BatchWriter { batch: Vec::new(), sent: 0 };
        assert(writer.waiting() =~= Seq::<WriteView>::empty());
        writer
    }

    /// Adds a write, and hands out the batch that it fills, if it fills one.
    pub fn push(&mut self, write: Write) -> (batch: Option<Vec<Write>>)
        ensures
            final(self).waiting() == filled(old(self).waiting(), write@).1,
            match batch {
                Some(full) => filled(old(self).waiting(), write@).0 == Some(writes_view(full@)),
                None => filled(old(self).waiting(), write@).0 is None,
            },
            final(self).sent() == match batch {
                Some(_) => capped(old(self).sent() + BATCH_SIZE),
                None => old(self).sent() as int,
            },
    {
        proof {
            use_type_invariant(&*self);
        }
        let ghost all = writes_view(self.batch@).push(write@);
        let mut full: Vec<Write> = Vec::new();
        std::mem::swap(&mut full, &mut self.batch);
        assert(writes_view(self.batch@) =~= Seq::<WriteView>::empty());
        full.push(write);
        assert(writes_view(full@) =~= all);
        if full.len() == BATCH_SIZE {
            self.sent = self.sent.saturating_add(BATCH_SIZE as u64);
            Some(full)
        } else {
            std::mem::swap(&mut full, &mut self.batch);
            None
        }
    }

    /// Reads a line, and hands out the batch that it fills, if it fills one.
    pub fn feed(&mut self, line: &str) -> (batch: Result<Option<Vec<Write>>, String>)
        ensures
            match write_on_line(line@) {
                Err(message) => {
                    &&& batch matches Err(m) && m@ == message
                    &&& *final(self) == *old(self)
                },
                Ok(None) => {
                    &&& batch matches Ok(None)
                    &&& *final(self) == *old(self)
                },
                Ok(Some(write)) => {
                    let (full, rest) = filled(old(self).waiting(), write);
                    &&& final(self).waiting() == rest
                    &&& batch matches Ok(b) && match b {
                        Some(list) => full == Some(writes_view(list@)) && final(self).sent()
                            == capped(old(self).sent() + BATCH_SIZE),
                        None => full is None && final(self).sent() == old(self).sent(),
                    }
                },
            },
    {
        if trim(line).as_str().is_empty() {
            return Ok(None);
        }
        match parse_json(line) {
            Err(message) => Err("parsing NDJSON line: ".to_owned().concat(message.as_str())),
            Ok(json) => match write_of_json(&json) {
                Ok(write) => Ok(self.push(write)),
                Err(message) => Err(message),
            },
        }
    }

    /// Hands out the writes that still wait, if any, and says how many were written in all.
    pub fn finish(self) -> (rest: (Option<Vec<Write>>, Json))
        ensures
            match rest.0 {
                Some(list) => self.waiting().len() > 0 && writes_view(list@) == self.waiting(),
                None => self.waiting().len() == 0,
            },
            rest.1@ == JsonView::Object(
                map!["written"@ => int_json(capped(self.sent() + self.waiting().len()))],
            ),
    {
        let BatchWriter { batch, sent } = self;
        let total = sent.saturating_add(batch.len() as u64);
        let mut out: Vec<(String, Json)> = Vec::new();
        put_field(&mut out, "written", Json::count(total));
        if batch.len() == 0 {
            (None, Json::Object(out))
        } else {
            (Some(batch), Json::Object(out))
        }
    }
}

/// A batch under way. What the service leaves of it is sent once more, and only once.
pub struct Flush {
    pub retried: bool,
}

impl Flush {
    /// A batch that was sent for the first time.
    pub fn new() -> (flush: Flush)
        ensures
            !flush.retried,
    {
        Flush { retried: false }
    }

    /// What to send again, after a wait, given what the service left of the batch: all of it, as it
    /// came.
    pub fn again<T>(&mut self, unprocessed: Option<Vec<T>>) -> (batch: Option<Vec<T>>)
        ensures
            match unprocessed {
                Some(list) => if !old(self).retried && list@.len() > 0 {
                    batch == Some(list) && final(self).retried
                } else {
                    batch is None && final(self).retried == old(self).retried
                },
                None => batch is None && final(self).retried == old(self).retried,
            },
    {
        match unprocessed {
            Some(list) => if !self.retried && list.len() > 0 {
                self.retried = true;
                Some(list)
            } else {
                None
            },
            None => None,
        }
    }
}

/// What is shown of tables' names.
pub open spec fn named(names: Seq<Seq<char>>) -> Seq<JsonView> {
    names.map_values(|n: Seq<char>| JsonView::Object(map!["name"@ => JsonView::Text(n)]))
}

/// Shows the tables on a page.
pub fn tables(names: &Vec<String>) -> (lines: Vec<Json>)
    ensures
        items_view(lines@) == named(strings_view(names@)),
{
    let mut lines: Vec<Json> = Vec::new();
    let ghost whole = named(strings_view(names@));
    let mut i: usize = 0;
    while i < names.len()
        invariant
            i <= names@.len(),
            whole == named(strings_view(names@)),
            items_view(lines@) == whole.take(i as int),
        decreases names@.len() - i,
    {
        let mut out: Vec<(String, Json)> = Vec::new();
        put_field(&mut out, "name", Json::text(names[i].as_str()));
        let line = Json::Object(out);
        proof {
            lemma_items_push(lines@, line);
            assert(whole.take(i + 1) =~= whole.take(i as int).push(whole[i as int]));
        }
        lines.push(line);
        i = i + 1;
    }
    assert(whole.take(i as int) =~= whole);
    lines
}

/// A table as the service describes it. Keys and attributes are pairs of a name and a type.
#[derive(Debug)]
pub struct TableInfo {
    pub name: Option<String>,
    pub status: Option<String>,
    pub item_count: Option<i64>,
    pub size_bytes: Option<i64>,
    pub key_schema: Vec<(String, String)>,
    pub attributes: Vec<(String, String)>,
    pub arn: Option<String>,
}

/// A list of named types, the names under `label`.
pub open spec fn typed(pairs: Seq<(String, String)>, label: Seq<char>) -> JsonView {
    JsonView::Array(
        pairs.map_values(
            |p: (String, String)|
                JsonView::Object(
                    map![label => JsonView::Text(p.0@), "type"@ => JsonView::Text(p.1@)],
                ),
        ),
    )
}

/// What is shown of a table.
pub open spec fn table_json(table: TableInfo) -> JsonView {
    JsonView::Object(
        map![
            "name"@ => text_or_null(opt_view(table.name)),
            "status"@ => text_or_null(opt_view(table.status)),
            "item_count"@ => int_or_null(widened(table.item_count)),
            "size_bytes"@ => int_or_null(widened(table.size_bytes)),
            "key_schema"@ => typed(table.key_schema@, "attribute"@),
            "attributes"@ => typed(table.attributes@, "name"@),
            "arn"@ => text_or_null(opt_view(table.arn)),
        ],
    )
}

/// Shows a list of named types.
pub(crate) fn typed_list(pairs: &Vec<(String, String)>, label: &str) -> (json: Json)
    ensures
        json@ == typed(pairs@, label@),
{
    let mut items: Vec<Json> = Vec::new();
    let ghost whole = typed(pairs@, label@)->Array_0;
    let mut i: usize = 0;
    while i < pairs.len()
        invariant
            i <= pairs@.len(),
            whole == typed(pairs@, label@)->Array_0,
            items_view(items@) == whole.take(i as int),
        decreases pairs@.len() - i,
    {
        let mut out: Vec<(String, Json)> = Vec::new();
        put_field(&mut out, label, Json::text(pairs[i].0.as_str()));
        put_field(&mut out, "type", Json::text(pairs[i].1.as_str()));
        let item = Json::Object(out);
        proof {
            lemma_items_push(items@, item);
            assert(whole.take(i + 1) =~= whole.take(i as int).push(whole[i as int]));
        }
        items.push(item);
        i = i + 1;
    }
    assert(whole.take(i as int) =~= whole);
    Json::Array(items)
}

/// A number that may be missing.
pub(crate) fn number_or_null(value: Option<i64>) -> (json: Json)
    ensures
        json@ == int_or_null(widened(value)),
{
    match value {
        Some(i) => Json::whole(i),
        None => Json::Null,
    }
}

/// Shows a table; an answer without one is an error.
pub fn describe(table: Option<TableInfo>) -> (json: Result<Json, String>)
    ensures
        match table {
            Some(t) => json matches Ok(shows) && shows@ == table_json(t),
            None => json matches Err(message) && message@ == "no table in response"@,
        },
{
    let t = match table {
        Some(t) => t,
        None => return Err("no table in response".to_owned()),
    };
    let mut out: Vec<(String, Json)> = Vec::new();
    put_field(&mut out, "name", Json::text_or_null(borrowed(&t.name)));
    put_field(&mut out, "status", Json::text_or_null(borrowed(&t.status)));
    put_field(&mut out, "item_count", number_or_null(t.item_count));
    put_field(&mut out, "size_bytes", number_or_null(t.size_bytes));
    put_field(&mut out, "key_schema", typed_list(&t.key_schema, "attribute"));
    put_field(&mut out, "attributes", typed_list(&t.attributes, "name"));
    put_field(&mut out, "arn", Json::text_or_null(borrowed(&t.arn)));
    Ok(Json::Object(out))
}

}
