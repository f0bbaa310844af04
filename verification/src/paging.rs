//! How much of what a service lists is shown.
use vstd::prelude::*;

use crate::json::Json;
use crate::json::JsonView;

verus! {

/// How many more entries may be shown; without a number, all of them.
pub struct Quota {
    pub left: Option<usize>,
}

/// How many of `n` entries are shown where `left` may be.
pub open spec fn shown(left: Option<usize>, n: nat) -> nat {
    match left {
        Some(l) => if l < n {
            l as nat
        } else {
            n
        },
        None => n,
    }
}

/// How many more may be shown once those of `n` entries are.
pub open spec fn left_after(left: Option<usize>, n: nat) -> Option<usize> {
    match left {
        Some(l) => Some((l - shown(left, n)) as usize),
        None => None,
    }
}

/// What is shown does not depend on how the entries come in pages: it is the head of all of them.
pub proof fn law_pages_do_not_matter(
    left: Option<usize>,
    first: Seq<JsonView>,
    second: Seq<JsonView>,
)
    ensures
        ({
            let all = first + second;
            &&& first.take(shown(left, first.len()) as int) + second.take(
                shown(left_after(left, first.len()), second.len()) as int,
            ) == all.take(shown(left, all.len()) as int)
            &&& left_after(left_after(left, first.len()), second.len()) == left_after(
                left,
                all.len(),
            )
        }),
{
    let all = first + second;
    assert(first.take(shown(left, first.len()) as int) + second.take(
        shown(left_after(left, first.len()), second.len()) as int,
    ) =~= all.take(shown(left, all.len()) as int));
}

/// No more than the limit is ever shown, and just the limit where nothing is left of it.
pub proof fn law_limit_is_kept(limit: usize, n: nat)
    ensures
        shown(Some(limit), n) <= limit,
        left_after(Some(limit), n) == Some(0usize) <==> shown(Some(limit), n) == limit,
{
}

impl Quota {
    /// Takes as many of the entries as may be shown, the first ones.
    pub fn take(&mut self, entries: Vec<Json>) -> (kept: Vec<Json>)
        ensures
            kept@ == entries@.take(shown(old(self).left, entries@.len()) as int),
            final(self).left == left_after(old(self).left, entries@.len()),
    {
        let mut kept = entries;
        let n = kept.len();
        match self.left {
            Some(l) => {
                if l < n {
                    kept.truncate(l);
                    self.left = Some(0);
                } else {
                    self.left = Some(l - n);
                }
            },
            None => {},
        }
        assert(kept@ =~= entries@.take(shown(old(self).left, entries@.len()) as int));
        kept
    }

    /// Whether nothing more may be shown.
    pub fn spent(&self) -> (none: bool)
        ensures
            none == (self.left == Some(0usize)),
    {
        match self.left {
            Some(l) => l == 0,
            None => false,
        }
    }
}

}
