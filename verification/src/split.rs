//! Splitting strings into fields.
use vstd::prelude::*;

use crate::text::cut;
use crate::text::first_at;
use crate::text::lemma_cut;
use crate::text::occurs_at;
use crate::text::pair_view;
use crate::text::split_once;

verus! {

/// `text` cut at each `mark`, into `n` fields at most; the last one keeps the marks that are left.
pub open spec fn fields_up_to(text: Seq<char>, mark: Seq<char>, n: nat) -> Seq<Seq<char>>
    decreases n,
{
    if n <= 1 {
        seq![text]
    } else {
        match cut(text, mark) {
            Some((first, rest)) => seq![first] + fields_up_to(rest, mark, (n - 1) as nat),
            None => seq![text],
        }
    }
}

/// `text` cut at each `mark`. No text has more fields than characters, and one more.
pub open spec fn all_fields(text: Seq<char>, mark: Seq<char>) -> Seq<Seq<char>> {
    fields_up_to(text, mark, text.len() + 1)
}

/// `c` does not occur in `text`.
pub open spec fn lacks(text: Seq<char>, c: char) -> bool {
    forall|i: int| 0 <= i < text.len() ==> #[trigger] text[i] != c
}

/// `at` is the first place where `a` or `b` stands in `text`.
pub open spec fn first_either(text: Seq<char>, a: char, b: char, at: int) -> bool {
    &&& 0 <= at < text.len()
    &&& text[at] == a || text[at] == b
    &&& lacks(text.take(at), a)
    &&& lacks(text.take(at), b)
}

/// `text` cut at the first `a` or `b`, whichever comes first.
pub open spec fn cut_either(text: Seq<char>, a: char, b: char) -> Option<(Seq<char>, Seq<char>)> {
    if exists|i: int| first_either(text, a, b, i) {
        let i = choose|i: int| first_either(text, a, b, i);
        Some((text.take(i), text.skip(i + 1)))
    } else {
        None
    }
}

/// The views of the strings in a list.
pub open spec fn strs_view(list: Seq<&str>) -> Seq<Seq<char>> {
    list.map_values(|s: &str| s@)
}

/// Where a text is cut at a single character.
pub proof fn lemma_cut_char(text: Seq<char>, c: char)
    ensures
        cut(text, seq![c]) is None <==> lacks(text, c),
        cut(text, seq![c]) matches Some((first, rest)) ==> text == first + seq![c] + rest && lacks(
            first,
            c,
        ),
{
    let mark = seq![c];
    assert forall|i: int| 0 <= i < text.len() implies (#[trigger] text[i] == c) == occurs_at(
        text,
        mark,
        i,
    ) by {
        if text[i] == c {
            assert(text.subrange(i, i + 1) =~= mark);
        }
        if occurs_at(text, mark, i) {
            assert(text.subrange(i, i + 1)[0] == mark[0]);
        }
    }
    if lacks(text, c) {
        assert forall|i: int| !first_at(text, mark, i) by {
            if first_at(text, mark, i) {
                assert(text[i] != c);
            }
        }
    } else {
        let i = choose|i: int| 0 <= i < text.len() && #[trigger] text[i] == c;
        lemma_first_char(text, c, i);
        let at = choose|at: int| first_at(text, mark, at);
        lemma_cut(text, mark, at);
        assert(text[at] == c);
        assert(text =~= text.take(at) + mark + text.skip(at + 1));
        assert forall|j: int| 0 <= j < at implies #[trigger] text.take(at)[j] != c by {
            assert(!occurs_at(text, mark, j));
            assert(text[j] != c);
        }
    }
}

/// A character that stands somewhere in a text stands somewhere first.
proof fn lemma_first_char(text: Seq<char>, c: char, at: int)
    requires
        0 <= at < text.len(),
        text[at] == c,
    ensures
        exists|i: int| first_at(text, seq![c], i),
    decreases at,
{
    let mark = seq![c];
    assert(text.subrange(at, at + 1) =~= mark);
    if first_at(text, mark, at) {
    } else {
        let j = choose|j: int| 0 <= j < at && occurs_at(text, mark, j);
        assert(text.subrange(j, j + 1)[0] == mark[0]);
        lemma_first_char(text, c, j);
    }
}

/// A text that was put together around a character is cut there.
pub proof fn lemma_cut_back(first: Seq<char>, c: char, rest: Seq<char>)
    requires
        lacks(first, c),
    ensures
        cut(first + seq![c] + rest, seq![c]) == Some((first, rest)),
{
    let text = first + seq![c] + rest;
    let mark = seq![c];
    let at = first.len() as int;
    assert(text.subrange(at, at + 1) =~= mark);
    assert forall|j: int| 0 <= j < at implies !occurs_at(text, mark, j) by {
        if occurs_at(text, mark, j) {
            assert(text.subrange(j, j + 1)[0] == mark[0]);
            assert(first[j] == c);
        }
    }
    lemma_cut(text, mark, at);
    assert(text.take(at) =~= first);
    assert(text.skip(at + 1) =~= rest);
}

/// The first place of either character is unique.
pub proof fn lemma_cut_either(text: Seq<char>, a: char, b: char, at: int)
    requires
        first_either(text, a, b, at),
    ensures
        cut_either(text, a, b) == Some((text.take(at), text.skip(at + 1))),
{
    let i = choose|i: int| first_either(text, a, b, i);
    assert(first_either(text, a, b, i));
    if i < at {
        assert(text.take(at)[i] == text[i]);
    } else if at < i {
        assert(text.take(i)[at] == text[at]);
    }
}

/// Neither character stands in a text that is not cut.
pub proof fn lemma_no_cut_either(text: Seq<char>, a: char, b: char)
    requires
        lacks(text, a),
        lacks(text, b),
    ensures
        cut_either(text, a, b) is None,
{
    assert forall|i: int| !first_either(text, a, b, i) by {
        if first_either(text, a, b, i) {
            assert(text[i] != a && text[i] != b);
        }
    }
}

/// The fields of a text, one by one, make it up again.
pub proof fn lemma_fields_shorter(text: Seq<char>, mark: Seq<char>)
    requires
        mark.len() > 0,
    ensures
        cut(text, mark) matches Some((first, rest)) ==> first.len() + mark.len() + rest.len()
            == text.len(),
{
    if exists|i: int| first_at(text, mark, i) {
        let i = choose|i: int| first_at(text, mark, i);
        assert(first_at(text, mark, i));
    }
}

/// The first field of a text that has a second one, and what is left to be split.
pub proof fn lemma_next_field(text: Seq<char>, c: char, n: nat) -> (rest: Seq<char>)
    requires
        n > 1,
        fields_up_to(text, seq![c], n).len() > 1,
    ensures
        text == fields_up_to(text, seq![c], n)[0] + seq![c] + rest,
        lacks(fields_up_to(text, seq![c], n)[0], c),
        fields_up_to(rest, seq![c], (n - 1) as nat) == fields_up_to(text, seq![c], n).skip(1),
{
    lemma_cut_char(text, c);
    let rest = cut(text, seq![c]).unwrap().1;
    assert(fields_up_to(text, seq![c], n).skip(1) =~= fields_up_to(rest, seq![c], (n - 1) as nat));
    rest
}

/// More fields than there are marks for make no difference.
pub proof fn lemma_fields_enough(text: Seq<char>, mark: Seq<char>, n: nat)
    requires
        mark.len() > 0,
        n > text.len(),
    ensures
        fields_up_to(text, mark, n) == all_fields(text, mark),
    decreases text.len(),
{
    lemma_fields_shorter(text, mark);
    if n > 1 {
        if let Some((first, rest)) = cut(text, mark) {
            lemma_fields_enough(rest, mark, (n - 1) as nat);
            lemma_fields_enough(rest, mark, text.len());
        }
    }
}

/// Splits `text` at each `mark`, into `n` fields at most.
pub fn split_up_to<'a>(text: &'a str, mark: &str, n: usize) -> (fields: Vec<&'a str>)
    requires
        mark@.len() > 0,
        n >= 1,
    ensures
        strs_view(fields@) == fields_up_to(text@, mark@, n as nat),
{
    let mut fields: Vec<&'a str> = Vec::new();
    let mut rest: &'a str = text;
    let mut left: usize = n;
    assert(strs_view(fields@) =~= Seq::<Seq<char>>::empty());
    assert(fields_up_to(text@, mark@, n as nat) =~= strs_view(fields@) + fields_up_to(
        rest@,
        mark@,
        left as nat,
    ));
    while left > 1
        invariant_except_break
            1 <= left,
            fields_up_to(text@, mark@, n as nat) == strs_view(fields@) + fields_up_to(
                rest@,
                mark@,
                left as nat,
            ),
        invariant
            mark@.len() > 0,
        ensures
            fields_up_to(text@, mark@, n as nat) == strs_view(fields@) + seq![rest@],
        decreases left,
    {
        match split_once(rest, mark) {
            Some((first, after)) => {
                let ghost before = strs_view(fields@);
                fields.push(first);
                assert(strs_view(fields@) =~= before.push(first@));
                assert(before + (seq![first@] + fields_up_to(after@, mark@, (left - 1) as nat))
                    =~= before.push(first@) + fields_up_to(after@, mark@, (left - 1) as nat));
                rest = after;
                left = left - 1;
            },
            None => {
                break ;
            },
        }
    }
    let ghost before = strs_view(fields@);
    fields.push(rest);
    assert(strs_view(fields@) =~= before + seq![rest@]);
    fields
}

/// Splits `text` at each `mark`.
pub fn split_all<'a>(text: &'a str, mark: &str) -> (fields: Vec<&'a str>)
    requires
        mark@.len() > 0,
    ensures
        strs_view(fields@) == all_fields(text@, mark@),
{
    let mut fields: Vec<&'a str> = Vec::new();
    let mut rest: &'a str = text;
    assert(strs_view(fields@) =~= Seq::<Seq<char>>::empty());
    assert(all_fields(text@, mark@) =~= strs_view(fields@) + all_fields(rest@, mark@));
    loop
        invariant_except_break
            all_fields(text@, mark@) == strs_view(fields@) + all_fields(rest@, mark@),
        invariant
            mark@.len() > 0,
        ensures
            all_fields(text@, mark@) == strs_view(fields@) + seq![rest@],
        decreases rest@.len(),
    {
        proof {
            lemma_fields_shorter(rest@, mark@);
        }
        match split_once(rest, mark) {
            Some((first, after)) => {
                let ghost before = strs_view(fields@);
                proof {
                    lemma_fields_enough(after@, mark@, rest@.len());
                }
                fields.push(first);
                assert(strs_view(fields@) =~= before.push(first@));
                assert(before + (seq![first@] + all_fields(after@, mark@)) =~= before.push(first@)
                    + all_fields(after@, mark@));
                rest = after;
            },
            None => {
                break ;
            },
        }
    }
    let ghost before = strs_view(fields@);
    fields.push(rest);
    assert(strs_view(fields@) =~= before + seq![rest@]);
    fields
}

/// Cuts `text` at the first `a` or `b`, each a single character, whichever comes first.
pub fn split_either<'a>(text: &'a str, a: &str, b: &str) -> (halves: Option<(&'a str, &'a str)>)
    requires
        a@.len() == 1,
        b@.len() == 1,
    ensures
        pair_view(halves) == cut_either(text@, a@[0], b@[0]),
{
    proof {
        assert(a@ =~= seq![a@[0]]);
        assert(b@ =~= seq![b@[0]]);
        lemma_cut_char(text@, a@[0]);
        lemma_cut_char(text@, b@[0]);
    }
    let at_a = split_once(text, a);
    let at_b = split_once(text, b);
    match at_a {
        None => {
            proof {
                match at_b {
                    None => {
                        lemma_no_cut_either(text@, a@[0], b@[0]);
                    },
                    Some((first, rest)) => {
                        lemma_either_here(text@, first@, rest@, b@[0], a@[0], b@[0]);
                    },
                }
            }
            at_b
        },
        Some((first, rest)) => {
            proof {
                lemma_cut_char(first@, b@[0]);
            }
            match split_once(first, b) {
                None => {
                    proof {
                        lemma_either_here(text@, first@, rest@, a@[0], a@[0], b@[0]);
                    }
                    at_a
                },
                Some((head, tail)) => {
                    proof {
                        lemma_second_first(text@, first@, rest@, head@, tail@, a@[0], b@[0]);
                    }
                    at_b
                },
            }
        },
    }
}

/// A text that begins with `first`, which holds neither character, and goes on with one of them.
pub proof fn lemma_either_here(
    text: Seq<char>,
    first: Seq<char>,
    rest: Seq<char>,
    c: char,
    a: char,
    b: char,
)
    requires
        text == first + seq![c] + rest,
        c == a || c == b,
        lacks(first, a),
        lacks(first, b),
    ensures
        cut_either(text, a, b) == Some((first, rest)),
{
    let at = first.len() as int;
    assert(text.take(at) =~= first);
    assert(text.skip(at + 1) =~= rest);
    assert(text[at] == c);
    lemma_cut_either(text, a, b, at);
}

/// A text in which the second character comes first: it stands before the place where the text is
/// cut at the first one.
proof fn lemma_second_first(
    text: Seq<char>,
    first: Seq<char>,
    rest: Seq<char>,
    head: Seq<char>,
    tail: Seq<char>,
    a: char,
    b: char,
)
    requires
        text == first + seq![a] + rest,
        lacks(first, a),
        first == head + seq![b] + tail,
        lacks(head, b),
    ensures
        cut_either(text, a, b) == cut(text, seq![b]),
{
    let whole = tail + seq![a] + rest;
    assert(text =~= head + seq![b] + whole);
    lemma_cut_back(head, b, whole);
    assert forall|i: int| 0 <= i < head.len() implies #[trigger] head[i] != a by {
        assert(first[i] == head[i]);
    }
    lemma_either_here(text, head, whole, b, a, b);
}

}
