//! Laws on what goes on from one call to the next: pages, batches and lines.
use vstd::prelude::*;
use vstd::string::*;

use crate::attribute::item_view;
use crate::attribute::AttributeValue;
use crate::attribute::Surface;
use crate::common::emit_ndjson_line;
use crate::ddb::write_on_line;
use crate::ddb::writes_view;
use crate::ddb::BatchWriter;
use crate::ddb::Flush;
use crate::ddb::Rows;
use crate::ddb::Write;
use crate::ddb::WriteView;
use crate::json::fields_view;
use crate::json::int_json;
use crate::json::items_view;
use crate::json::put;
use crate::json::Json;
use crate::json::JsonView;
use crate::laws::attributes::law_nested_is_shown;
use crate::laws::tables::shows_item;
use crate::paging::Quota;
use crate::s3::page_entries;
use crate::s3::Listing;
use crate::s3::ObjectPage;
use crate::wire::json_text;
use vstd::utf8::encode_utf8;

verus! {

/// How many of `n` entries a limit lets through.
pub open spec fn let_through(left: Option<usize>, n: nat) -> int {
    match left {
        Some(l) => if l <= n {
            l as int
        } else {
            n as int
        },
        None => n as int,
    }
}

/// What is left of a limit: nothing of none, and else what is not used up.
pub open spec fn left_of(before: Option<usize>, after: Option<usize>, n: nat) -> bool {
    match before {
        None => after is None,
        Some(b) => after matches Some(a) && a + let_through(before, n) == b,
    }
}

/// The first entries are taken, as many as the limit lets through, and the limit is used up by them.
pub proof fn law_quota_is_taken(
    quota: &mut Quota,
    asked: &Quota,
    entries: Vec<Json>,
    kept: Vec<Json>,
    none: bool,
)
    requires
        call_ensures(Quota::take, (quota, entries), kept),
        call_ensures(Quota::spent, (asked,), none),
    ensures
        kept@ == entries@.take(let_through(old(quota).left, entries@.len())),
        left_of(old(quota).left, final(quota).left, entries@.len()),
        none <==> (asked.left matches Some(l) && l == 0),
{
}

/// A page of a query or a scan: its rows are shown in their order, all of them where there is no limit
/// and else as many as it lets through. It goes on from just the key that the page came with, unless
/// that is missing or empty or nothing is left of the limit.
pub proof fn law_page_of_rows(
    rows: &mut Rows,
    items: &Vec<Vec<(String, AttributeValue)>>,
    last: Option<Vec<(String, AttributeValue)>>,
    shows: (Vec<Json>, Option<Vec<(String, AttributeValue)>>),
)
    requires
        call_ensures(Rows::page, (rows, items, last), shows),
    ensures
        shows.0@.len() == let_through(old(rows).quota.left, items@.len()),
        forall|i: int|
            0 <= i < shows.0@.len() ==> shows_item(
                (#[trigger] shows.0@[i])@,
                item_view(items@[i]@),
                Surface::Command,
            ),
        left_of(old(rows).quota.left, final(rows).quota.left, items@.len()),
        match last {
            Some(key) => if key@.len() > 0 && final(rows).quota.left != Some(0usize) {
                shows.1 == Some(key)
            } else {
                shows.1 is None
            },
            None => shows.1 is None,
        },
{
    let seen_rows = items_view(shows.0@);
    assert(seen_rows.len() == shows.0@.len());
    assert forall|i: int| 0 <= i < shows.0@.len() implies shows_item(
        (#[trigger] shows.0@[i])@,
        item_view(items@[i]@),
        Surface::Command,
    ) by {
        assert(seen_rows[i] == shows.0@[i]@);
        law_nested_is_shown(Seq::empty(), item_view(items@[i]@), Surface::Command);
    }
    if let Some(key) = last {
        if key@.len() > 0 {
            assert(item_view(key@).contains_key(key@.last().0@));
        }
    }
}

/// A page of a listing: its entries are shown in their order, all of them where there is no limit and
/// else as many as it lets through. It goes on with the token of a page that says that there are more,
/// unless nothing is left of the limit.
pub proof fn law_page_of_objects(
    listing: &mut Listing,
    page: ObjectPage,
    shows: (Vec<Json>, Option<String>),
)
    requires
        call_ensures(Listing::page, (listing, page), shows),
    ensures
        shows.0@.len() == let_through(old(listing).quota.left, page_entries(page).len()),
        forall|i: int|
            0 <= i < shows.0@.len() ==> (#[trigger] shows.0@[i])@ == page_entries(page)[i],
        left_of(old(listing).quota.left, final(listing).quota.left, page_entries(page).len()),
        match page.token {
            Some(token) => if page.truncated == Some(true) && final(listing).quota.left != Some(
                0usize,
            ) {
                shows.1 matches Some(next) && next@ == token@
            } else {
                shows.1 is None
            },
            None => shows.1 is None,
        },
{
    let entries = items_view(shows.0@);
    assert(entries.len() == shows.0@.len());
    assert(forall|i: int| 0 <= i < entries.len() ==> (#[trigger] shows.0@[i])@ == entries[i]);
}

/// A write waits with those before it, in their order, until there are twenty-five of them; just then
/// they are handed out, and nothing waits.
pub proof fn law_write_is_added(
    writer: &mut BatchWriter,
    write: Write,
    batch: Option<Vec<Write>>,
    fresh: BatchWriter,
)
    requires
        call_ensures(BatchWriter::push, (writer, write), batch),
        call_ensures(BatchWriter::new, (), fresh),
        old(writer).waiting().len() < 25,
    ensures
        old(writer).waiting().len() == 24 ==> {
            &&& batch matches Some(full) && writes_view(full@) == old(writer).waiting().push(write@)
            &&& final(writer).waiting().len() == 0
            &&& final(writer).sent() == if old(writer).sent() + 25 <= u64::MAX {
                old(writer).sent() + 25
            } else {
                u64::MAX as int
            }
        },
        old(writer).waiting().len() < 24 ==> {
            &&& batch is None
            &&& final(writer).waiting() == old(writer).waiting().push(write@)
            &&& final(writer).sent() == old(writer).sent()
        },
        fresh.waiting().len() == 0 && fresh.sent() == 0,
{
}

/// A line adds the write on it and no other; one that is blank or cannot be read adds nothing.
pub proof fn law_line_is_fed(
    writer: &mut BatchWriter,
    line: &str,
    batch: Result<Option<Vec<Write>>, String>,
)
    requires
        call_ensures(BatchWriter::feed, (writer, line), batch),
        old(writer).waiting().len() < 25,
    ensures
        match write_on_line(line@) {
            Err(message) => batch matches Err(m) && m@ == message && *final(writer) == *old(writer),
            Ok(None) => batch matches Ok(b) && b is None && *final(writer) == *old(writer),
            Ok(Some(write)) => batch matches Ok(b) && if old(writer).waiting().len() == 24 {
                &&& b matches Some(full) && writes_view(full@) == old(writer).waiting().push(write)
                &&& final(writer).waiting().len() == 0
            } else {
                &&& b is None
                &&& final(writer).waiting() == old(writer).waiting().push(write)
                &&& final(writer).sent() == old(writer).sent()
            },
        },
{
}

/// In the end what still waits is handed out, and all writes are counted.
pub proof fn law_rest_is_handed_out(writer: BatchWriter, rest: (Option<Vec<Write>>, Json))
    requires
        call_ensures(BatchWriter::finish, (writer,), rest),
    ensures
        match rest.0 {
            Some(list) => list@.len() > 0 && writes_view(list@) == writer.waiting(),
            None => writer.waiting().len() == 0,
        },
        ({
            let all = writer.sent() + writer.waiting().len();
            rest.1@ == JsonView::Object(
                map![
                    "written"@ => int_json(
                        if all <= u64::MAX {
                            all
                        } else {
                            u64::MAX as int
                        },
                    ),
                ],
            )
        }),
{
    if let Some(list) = rest.0 {
        assert(writes_view(list@).len() == list@.len());
    }
}

/// A write is seen as what it is: an item that is put, or a key that is deleted.
pub proof fn law_write_view(item: Vec<(String, AttributeValue)>, writes: Seq<Write>)
    ensures
        Write::Put(item)@ == WriteView::Put(item_view(item@)),
        Write::Delete(item)@ == WriteView::Delete(item_view(item@)),
        writes_view(writes).len() == writes.len(),
        forall|i: int| 0 <= i < writes.len() ==> #[trigger] writes_view(writes)[i] == writes[i]@,
{
}

/// What a service leaves of a batch is sent again, all of it and as it came, and only once.
pub proof fn law_left_over_is_sent_once<T>(
    fresh: Flush,
    flush: &mut Flush,
    left: Option<Vec<T>>,
    batch: Option<Vec<T>>,
)
    requires
        call_ensures(Flush::new, (), fresh),
        call_ensures(Flush::again::<T>, (flush, left), batch),
    ensures
        !fresh.retried,
        batch is Some <==> !old(flush).retried && (left matches Some(list) && list@.len() > 0),
        batch is Some ==> batch == left,
        final(flush).retried <==> old(flush).retried || batch is Some,
{
}

/// A line of output is the JSON text, on one line, and a newline (10) behind it; what was there stays.
pub proof fn law_line_is_written(w: &mut Vec<u8>, v: &Json, done: Result<(), String>)
    requires
        call_ensures(emit_ndjson_line, (w, v), done),
    ensures
        done is Ok,
        final(w)@ == old(w)@ + encode_utf8(json_text(v@)) + seq![10u8],
        !encode_utf8(json_text(v@)).contains(10u8),
{
}

/// A field that is added to an object counts, and the other fields stay as they are.
pub proof fn law_field_is_added(
    fields: &mut Vec<(String, Json)>,
    name: &str,
    value: Json,
    other: Seq<char>,
)
    requires
        call_ensures(put, (fields, name, value), ()),
    ensures
        fields_view(final(fields)@).dom() == fields_view(old(fields)@).dom().insert(name@),
        fields_view(final(fields)@)[name@] == value@,
        other != name@ && fields_view(old(fields)@).dom().contains(other) ==> fields_view(
            final(fields)@,
        )[other] == fields_view(old(fields)@)[other],
{
    assert(fields_view(final(fields)@).dom() =~= fields_view(old(fields)@).dom().insert(name@));
}

}
