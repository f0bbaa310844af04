//! Laws on what comes in pages, and on what is sent in batches.
use vstd::prelude::*;
use vstd::string::*;

use crate::attribute::fields_of;
use crate::attribute::item_view;
use crate::attribute::AttributeValue;
use crate::attribute::AvView;
use crate::attribute::Surface;
use crate::ddb::at_least_one;
use crate::ddb::batches;
use crate::ddb::capped;
use crate::ddb::filled;
use crate::ddb::next_key;
use crate::ddb::rows_of;
use crate::ddb::WriteView;
use crate::ddb::RETRY_DELAY;
use crate::json::JsonView;
use crate::paging::left_after;
use crate::paging::shown;
use crate::s3::next_page;
use crate::s3::page_entries;
use crate::s3::ObjectPage;

verus! {

/// Of `n` entries all are shown where there is no limit, and else as many as are left of it; what is
/// shown is taken off what is left.
pub proof fn law_quota(left: usize, n: nat)
    ensures
        shown(None, n) == n,
        left_after(None, n) is None,
        shown(Some(left), n) == if n <= left {
            n
        } else {
            left as nat
        },
        left_after(Some(left), n) == Some(
            if n <= left {
                (left - n) as usize
            } else {
                0usize
            },
        ),
{
}

/// A limit on rows is kept as it is, but that one row may always be shown.
pub proof fn law_limit_on_rows(limit: int)
    ensures
        at_least_one(None) is None,
        limit >= 1 ==> at_least_one(Some(limit)) == Some(limit),
        limit < 1 ==> at_least_one(Some(limit)) == Some(1int),
{
}

/// A page with a key that is not empty is followed by a request from just that key, unless nothing is
/// left of a limit; a page without one is the last.
pub proof fn law_next_key(key: Map<Seq<char>, AvView>, name: Seq<char>, left: usize)
    requires
        key.dom().contains(name),
    ensures
        next_key(Some(key), None) == Some(key),
        left > 0 ==> next_key(Some(key), Some(left)) == Some(key),
        next_key(Some(key), Some(0)) is None,
        next_key(None, None) is None,
        next_key(None, Some(left)) is None,
        next_key(Some(Map::empty()), None) is None,
        next_key(Some(Map::empty()), Some(left)) is None,
{
}

/// A page of rows, and the key that it comes with, if it comes with one.
pub ghost struct RowPage {
    pub rows: Seq<JsonView>,
    pub last: Option<Map<Seq<char>, AvView>>,
}

/// The page comes with a key that is not empty, so that there are more.
pub open spec fn more_rows(page: RowPage) -> bool {
    page.last matches Some(key) && exists|name: Seq<char>| #[trigger] key.dom().contains(name)
}

/// What is shown of a run of pages, one request after another.
pub open spec fn run(pages: Seq<RowPage>, left: Option<usize>) -> Seq<JsonView>
    decreases pages.len(),
{
    if pages.len() == 0 {
        Seq::empty()
    } else {
        let page = pages[0];
        let now = page.rows.take(shown(left, page.rows.len()) as int);
        let after = left_after(left, page.rows.len());
        match next_key(page.last, after) {
            Some(_) => now + run(pages.skip(1), after),
            None => now,
        }
    }
}

/// The rows of all pages up to the first one without a key.
pub open spec fn all_rows(pages: Seq<RowPage>) -> Seq<JsonView>
    decreases pages.len(),
{
    if pages.len() == 0 {
        Seq::empty()
    } else if more_rows(pages[0]) {
        pages[0].rows + all_rows(pages.skip(1))
    } else {
        pages[0].rows
    }
}

proof fn lemma_more(page: RowPage, left: Option<usize>)
    ensures
        next_key(page.last, left) is Some <==> more_rows(page) && left != Some(0usize),
{
    if let Some(key) = page.last {
        if key =~= Map::empty() {
        } else {
            let name = choose|name: Seq<char>| #[trigger] key.dom().contains(name);
            assert(exists|name: Seq<char>| #[trigger] key.dom().contains(name)) by {
                if forall|name: Seq<char>| !#[trigger] key.dom().contains(name) {
                    assert(key =~= Map::empty());
                }
            }
        }
    }
}

/// Without a limit all rows of all pages are shown, up to the first page that comes without a key; with
/// a limit the first ones, as many as it says.
pub proof fn law_all_rows_are_shown(pages: Seq<RowPage>, limit: usize)
    ensures
        run(pages, None) == all_rows(pages),
        run(pages, Some(limit)) == if limit < all_rows(pages).len() {
            all_rows(pages).take(limit as int)
        } else {
            all_rows(pages)
        },
    decreases pages.len(),
{
    if pages.len() > 0 {
        let page = pages[0];
        let rows = page.rows;
        let rest = pages.skip(1);
        let after = left_after(Some(limit), rows.len());
        lemma_more(page, None);
        lemma_more(page, after);
        assert(rows.take(rows.len() as int) =~= rows);
        law_all_rows_are_shown(rest, after.unwrap());
        if more_rows(page) {
            let all = rows + all_rows(rest);
            if limit <= rows.len() {
                assert(after == Some(0usize));
                assert(all.take(limit as int) =~= rows.take(limit as int));
                if limit == all.len() {
                    assert(all.take(limit as int) =~= all);
                }
            } else {
                let left = (limit - rows.len()) as usize;
                assert(after == Some(left));
                if limit < all.len() {
                    assert(all.take(limit as int) =~= rows + all_rows(rest).take(left as int));
                }
            }
        }
    }
}

/// A row is an item as the commands show it, in its place.
pub proof fn law_rows_of(items: Seq<Vec<(String, AttributeValue)>>)
    ensures
        rows_of(items).len() == items.len(),
        forall|i: int|
            0 <= i < items.len() ==> #[trigger] rows_of(items)[i] == JsonView::Object(
                fields_of(item_view(items[i]@), Surface::Command),
            ),
{
}

/// A listing goes on with the token of a page that says that there are more, unless nothing is left
/// of the limit.
pub proof fn law_next_page(page: ObjectPage, left: usize)
    ensures
        page.truncated == Some(true) ==> match page.token {
            Some(token) => {
                &&& next_page(page, None) == Some(token@)
                &&& left > 0 ==> next_page(page, Some(left)) == Some(token@)
            },
            None => next_page(page, None) is None && next_page(page, Some(left)) is None,
        },
        page.truncated != Some(true) ==> next_page(page, None) is None && next_page(
            page,
            Some(left),
        ) is None,
        next_page(page, Some(0)) is None,
{
}

/// What is shown of a run of pages of a listing.
pub open spec fn list_run(pages: Seq<ObjectPage>, left: Option<usize>) -> Seq<JsonView>
    decreases pages.len(),
{
    if pages.len() == 0 {
        Seq::empty()
    } else {
        let entries = page_entries(pages[0]);
        let now = entries.take(shown(left, entries.len()) as int);
        let after = left_after(left, entries.len());
        match next_page(pages[0], after) {
            Some(_) => now + list_run(pages.skip(1), after),
            None => now,
        }
    }
}

/// The entries of all pages up to the first one that says that there are no more, or has no token.
pub open spec fn all_entries(pages: Seq<ObjectPage>) -> Seq<JsonView>
    decreases pages.len(),
{
    if pages.len() == 0 {
        Seq::empty()
    } else if pages[0].truncated == Some(true) && pages[0].token is Some {
        page_entries(pages[0]) + all_entries(pages.skip(1))
    } else {
        page_entries(pages[0])
    }
}

/// Without a limit all entries of all pages of a listing are shown; with a limit the first ones, as
/// many as it says, over all pages.
pub proof fn law_all_entries_are_listed(pages: Seq<ObjectPage>, limit: usize)
    ensures
        list_run(pages, None) == all_entries(pages),
        list_run(pages, Some(limit)) == if limit < all_entries(pages).len() {
            all_entries(pages).take(limit as int)
        } else {
            all_entries(pages)
        },
    decreases pages.len(),
{
    if pages.len() > 0 {
        let entries = page_entries(pages[0]);
        let rest = pages.skip(1);
        let after = left_after(Some(limit), entries.len());
        assert(entries.take(entries.len() as int) =~= entries);
        law_all_entries_are_listed(rest, after.unwrap());
        if pages[0].truncated == Some(true) && pages[0].token is Some {
            let all = entries + all_entries(rest);
            if limit <= entries.len() {
                assert(after == Some(0usize));
                assert(all.take(limit as int) =~= entries.take(limit as int));
                if limit == all.len() {
                    assert(all.take(limit as int) =~= all);
                }
            } else {
                let left = (limit - entries.len()) as usize;
                assert(after == Some(left));
                if limit < all.len() {
                    assert(all.take(limit as int) =~= entries + all_entries(rest).take(left as int));
                }
            }
        }
    }
}

/// A batch is full with 25 writes, and not before: then it is handed out, in order, and nothing
/// waits.
pub proof fn law_batch_of_25(waiting: Seq<WriteView>, write: WriteView)
    requires
        waiting.len() < 25,
    ensures
        waiting.len() == 24 ==> filled(waiting, write) == (
            Some(waiting.push(write)),
            Seq::<WriteView>::empty(),
        ),
        waiting.len() < 24 ==> filled(waiting, write) == (
            None::<Seq<WriteView>>,
            waiting.push(write),
        ),
{
}

/// Batches one behind the other, with the writes that wait behind them, are the writes as they came;
/// each batch has 25 of them, and fewer wait.
pub proof fn law_batches_of_25(writes: Seq<WriteView>)
    ensures
        ({
            let (sent, waiting) = batches(writes);
            &&& waiting.len() < 25
            &&& sent.len() * 25 + waiting.len() == writes.len()
            &&& forall|b: int| 0 <= b < sent.len() ==> (#[trigger] sent[b]).len() == 25
            &&& forall|b: int, i: int|
                0 <= b < sent.len() && 0 <= i < 25 ==> #[trigger] sent[b][i] == writes[b * 25 + i]
            &&& forall|i: int|
                0 <= i < waiting.len() ==> #[trigger] waiting[i] == writes[sent.len() * 25 + i]
        }),
    decreases writes.len(),
{
    if writes.len() > 0 {
        let init = writes.drop_last();
        law_batches_of_25(init);
        let (before, waited) = batches(init);
        let (sent, waiting) = batches(writes);
        law_batch_of_25(waited, writes.last());
        if waited.len() == 24 {
            let batch = waited.push(writes.last());
            assert(sent == before.push(batch));
            assert forall|b: int, i: int| 0 <= b < sent.len() && 0 <= i < 25 implies #[trigger] sent[b][i]
                == writes[b * 25 + i] by {
                if b < before.len() {
                    assert(sent[b][i] == before[b][i]);
                    assert(b * 25 + i < before.len() * 25) by (nonlinear_arith)
                        requires
                            b < before.len(),
                            i < 25,
                    ;
                    assert(init[b * 25 + i] == writes[b * 25 + i]);
                } else if i < 24 {
                    assert(batch[i] == waited[i]);
                    assert(init[before.len() * 25 + i] == writes[b * 25 + i]);
                } else {
                    assert(batch[i] == writes.last());
                }
            }
        } else {
            assert(sent == before);
            assert forall|i: int| 0 <= i < waiting.len() implies #[trigger] waiting[i]
                == writes[sent.len() * 25 + i] by {
                if i < waited.len() {
                    assert(waiting[i] == waited[i]);
                    assert(init[before.len() * 25 + i] == writes[before.len() * 25 + i]);
                }
            }
            assert forall|b: int, i: int| 0 <= b < sent.len() && 0 <= i < 25 implies #[trigger] sent[b][i]
                == writes[b * 25 + i] by {
                assert(before[b][i] == init[b * 25 + i]);
                assert(b * 25 + i < before.len() * 25) by (nonlinear_arith)
                    requires
                        b < before.len(),
                        i < 25,
                ;
            }
        }
    }
}

/// A count of writes is told as it is, up to the greatest that 64 bits hold.
pub proof fn law_count_of_writes(n: int)
    ensures
        0 <= n <= 18446744073709551615 ==> capped(n) == n,
        n > 18446744073709551615 ==> capped(n) == 18446744073709551615,
{
}

/// What was left of a batch is sent again after a quarter of a second.
pub proof fn law_wait_before_retry()
    ensures
        RETRY_DELAY * 4 == 1000,
{
}

}
