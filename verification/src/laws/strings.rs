//! Laws on cutting, trimming and comparing texts, and on numbers in decimal notation.
use vstd::prelude::*;
use vstd::string::*;

use crate::decimal::decimal;
use crate::decimal::i64_of;
use crate::decimal::is_whole;
use crate::decimal::signed_decimal;
use crate::split::all_fields;
use crate::split::cut_either;
use crate::split::fields_up_to;
use crate::split::first_either;
use crate::split::lemma_cut_char;
use crate::split::lemma_fields_enough;
use crate::text::after_head;
use crate::text::before_tail;
use crate::text::cut;
use crate::text::cut_last;
use crate::text::first_at;
use crate::text::is_digit;
use crate::text::is_letter;
use crate::text::is_white;
use crate::text::last_at;
use crate::text::lower;
use crate::text::occurs_at;
use crate::text::precedes;
use crate::text::trimmed;
use crate::text::upper;
use crate::text::without_leading;
use crate::text::without_trailing;

verus! {

/// A text is cut at a mark into what stands before it and what stands behind it, and no earlier
/// mark is there. Where it is not cut, there is none.
pub proof fn law_cut(text: Seq<char>, mark: Seq<char>)
    requires
        mark.len() > 0,
    ensures
        match cut(text, mark) {
            Some((before, after)) => {
                &&& text == before + mark + after
                &&& forall|j: int|
                    0 <= j < before.len() ==> #[trigger] text.subrange(j, j + mark.len()) != mark
            },
            None => forall|j: int|
                0 <= j && j + mark.len() <= text.len() ==> #[trigger] text.subrange(
                    j,
                    j + mark.len(),
                ) != mark,
        },
{
    match cut(text, mark) {
        Some((before, after)) => {
            let i = choose|i: int| first_at(text, mark, i);
            assert(first_at(text, mark, i));
            assert(text =~= text.take(i) + mark + text.skip(i + mark.len())) by {
                assert(text.subrange(i, i + mark.len()) == mark);
                assert forall|k: int| i <= k < i + mark.len() implies text[k] == mark[k - i] by {
                    assert(text.subrange(i, i + mark.len())[k - i] == text[k]);
                }
            }
            assert forall|j: int| 0 <= j < before.len() implies #[trigger] text.subrange(
                j,
                j + mark.len(),
            ) != mark by {
                assert(!occurs_at(text, mark, j));
            }
        },
        None => {
            assert forall|j: int| 0 <= j && j + mark.len() <= text.len() implies #[trigger] text.subrange(
                j,
                j + mark.len(),
            ) != mark by {
                if text.subrange(j, j + mark.len()) == mark {
                    lemma_some_first(text, mark, j);
                }
            }
        },
    }
}

/// A mark that is there has a first place.
proof fn lemma_some_first(text: Seq<char>, mark: Seq<char>, j: int)
    requires
        occurs_at(text, mark, j),
    ensures
        exists|i: int| first_at(text, mark, i),
    decreases j,
{
    if exists|k: int| 0 <= k < j && occurs_at(text, mark, k) {
        let k = choose|k: int| 0 <= k < j && occurs_at(text, mark, k);
        lemma_some_first(text, mark, k);
    } else {
        assert(first_at(text, mark, j));
    }
}

/// A text is cut at the last mark into what stands before it and what stands behind it, and no later
/// mark is there. Where it is not cut, there is none.
pub proof fn law_cut_last(text: Seq<char>, mark: Seq<char>)
    requires
        mark.len() > 0,
    ensures
        match cut_last(text, mark) {
            Some((before, after)) => {
                &&& text == before + mark + after
                &&& forall|j: int|
                    before.len() < j && j + mark.len() <= text.len() ==> #[trigger] text.subrange(
                        j,
                        j + mark.len(),
                    ) != mark
            },
            None => forall|j: int|
                0 <= j && j + mark.len() <= text.len() ==> #[trigger] text.subrange(
                    j,
                    j + mark.len(),
                ) != mark,
        },
{
    match cut_last(text, mark) {
        Some((before, after)) => {
            let i = choose|i: int| last_at(text, mark, i);
            assert(last_at(text, mark, i));
            assert(text =~= text.take(i) + mark + text.skip(i + mark.len())) by {
                assert forall|k: int| i <= k < i + mark.len() implies text[k] == mark[k - i] by {
                    assert(text.subrange(i, i + mark.len())[k - i] == text[k]);
                }
            }
            assert forall|j: int|
                before.len() < j && j + mark.len() <= text.len() implies #[trigger] text.subrange(
                j,
                j + mark.len(),
            ) != mark by {
                assert(!occurs_at(text, mark, j));
            }
        },
        None => {
            assert forall|j: int| 0 <= j && j + mark.len() <= text.len() implies #[trigger] text.subrange(
                j,
                j + mark.len(),
            ) != mark by {
                if text.subrange(j, j + mark.len()) == mark {
                    lemma_some_last(text, mark, j);
                }
            }
        },
    }
}

/// A mark that is there has a last place.
proof fn lemma_some_last(text: Seq<char>, mark: Seq<char>, j: int)
    requires
        occurs_at(text, mark, j),
    ensures
        exists|i: int| last_at(text, mark, i),
    decreases text.len() - j,
{
    if exists|k: int| j < k && occurs_at(text, mark, k) {
        let k = choose|k: int| j < k && occurs_at(text, mark, k);
        lemma_some_last(text, mark, k);
    } else {
        assert(last_at(text, mark, j));
    }
}

/// Taking a head off a text undoes putting it there, and is done only where it is there.
pub proof fn law_after_head(text: Seq<char>, head: Seq<char>, rest: Seq<char>)
    ensures
        after_head(head + rest, head) == Some(rest),
        match after_head(text, head) {
            Some(found) => text == head + found,
            None => text.len() < head.len() || exists|i: int|
                0 <= i < head.len() && #[trigger] text[i] != head[i],
        },
{
    assert((head + rest).subrange(0, head.len() as int) =~= head);
    assert((head + rest).skip(head.len() as int) =~= rest);
    match after_head(text, head) {
        Some(found) => {
            assert forall|i: int| 0 <= i < head.len() implies text[i] == head[i] by {
                assert(text.subrange(0, head.len() as int)[i] == text[i]);
            }
            assert(text =~= head + found);
        },
        None => {
            if text.len() >= head.len() && forall|i: int|
                0 <= i < head.len() ==> #[trigger] text[i] == head[i] {
                assert(text.subrange(0, head.len() as int) =~= head);
            }
        },
    }
}

/// Taking a tail off a text undoes putting it there, and is done only where it is there.
pub proof fn law_before_tail(text: Seq<char>, tail: Seq<char>, rest: Seq<char>)
    ensures
        before_tail(rest + tail, tail) == Some(rest),
        match before_tail(text, tail) {
            Some(found) => text == found + tail,
            None => text.len() < tail.len() || exists|i: int|
                0 <= i < tail.len() && #[trigger] tail[i] != text[text.len() - tail.len() + i],
        },
{
    let whole = rest + tail;
    assert(whole.subrange(whole.len() - tail.len(), whole.len() as int) =~= tail);
    assert(whole.take(whole.len() - tail.len()) =~= rest);
    let n = text.len() - tail.len();
    match before_tail(text, tail) {
        Some(found) => {
            assert forall|i: int| 0 <= i < tail.len() implies tail[i] == text[n + i] by {
                assert(text.subrange(n, text.len() as int)[i] == text[n + i]);
            }
            assert(text =~= found + tail);
        },
        None => {
            if n >= 0 && forall|i: int| 0 <= i < tail.len() ==> #[trigger] tail[i] == text[n + i] {
                assert(text.subrange(n, text.len() as int) =~= tail);
            }
        },
    }
}

/// What is taken off the beginning of a text is a run of the one character, all of it.
pub proof fn law_without_leading(text: Seq<char>, c: char) -> (n: int)
    ensures
        0 <= n <= text.len(),
        without_leading(text, c) == text.skip(n),
        forall|i: int| 0 <= i < n ==> #[trigger] text[i] == c,
        n < text.len() ==> text[n] != c,
    decreases text.len(),
{
    if text.len() > 0 && text[0] == c {
        let m = law_without_leading(text.drop_first(), c);
        assert(text.drop_first().skip(m) =~= text.skip(m + 1));
        assert forall|i: int| 0 <= i < m + 1 implies #[trigger] text[i] == c by {
            if i > 0 {
                assert(text.drop_first()[i - 1] == text[i]);
            }
        }
        if m + 1 < text.len() {
            assert(text.drop_first()[m] == text[m + 1]);
        }
        m + 1
    } else {
        assert(text.skip(0) =~= text);
        0
    }
}

/// What is taken off the end of a text is a run of the one character, all of it.
pub proof fn law_without_trailing(text: Seq<char>, c: char) -> (n: int)
    ensures
        0 <= n <= text.len(),
        without_trailing(text, c) == text.take(n),
        forall|i: int| n <= i < text.len() ==> #[trigger] text[i] == c,
        n > 0 ==> text[n - 1] != c,
    decreases text.len(),
{
    if text.len() > 0 && text.last() == c {
        let m = law_without_trailing(text.drop_last(), c);
        assert(text.drop_last().take(m) =~= text.take(m));
        assert forall|i: int| m <= i < text.len() implies #[trigger] text[i] == c by {
            if i < text.len() - 1 {
                assert(text.drop_last()[i] == text[i]);
            }
        }
        m
    } else {
        assert(text.take(text.len() as int) =~= text);
        text.len() as int
    }
}

/// White space, by the numbers of its characters.
pub open spec fn blank(n: int) -> bool {
    ||| n == 9 || n == 10 || n == 11 || n == 12 || n == 13 || n == 32 || n == 133 || n == 160
    ||| n == 5760 || 8192 <= n <= 8202 || n == 8232 || n == 8233 || n == 8239 || n == 8287
    ||| n == 12288
}

/// What is trimmed off a text is white space, all of it at either end and nothing else.
pub proof fn law_trimmed(text: Seq<char>) -> (range: (int, int))
    ensures
        0 <= range.0 <= range.1 <= text.len(),
        trimmed(text) == text.subrange(range.0, range.1),
        forall|i: int|
            (0 <= i < range.0 || range.1 <= i < text.len()) ==> blank(#[trigger] text[i] as int),
        range.0 < range.1 ==> !blank(text[range.0] as int) && !blank(text[range.1 - 1] as int),
    decreases text.len(),
{
    assert(forall|c: char| #[trigger] is_white(c) <==> blank(c as int));
    if text.len() > 0 && is_white(text[0]) {
        let inner = text.drop_first();
        let (a, b) = law_trimmed(inner);
        assert(inner.subrange(a, b) =~= text.subrange(a + 1, b + 1));
        assert forall|i: int|
            (0 <= i < a + 1 || b + 1 <= i < text.len()) implies blank(#[trigger] text[i] as int) by {
            if i > 0 {
                assert(inner[i - 1] == text[i]);
            }
        }
        (a + 1, b + 1)
    } else if text.len() > 0 && is_white(text.last()) {
        let inner = text.drop_last();
        let (a, b) = law_trimmed(inner);
        assert(inner.subrange(a, b) =~= text.subrange(a, b));
        assert forall|i: int|
            (0 <= i < a || b <= i < text.len()) implies blank(#[trigger] text[i] as int) by {
            if i < text.len() - 1 {
                assert(inner[i] == text[i]);
            }
        }
        (a, b)
    } else {
        assert(text.subrange(0, text.len() as int) =~= text);
        (0, text.len() as int)
    }
}

/// The letters from A to Z change their case by 32 places, and no other character changes.
pub proof fn law_case(c: char)
    ensures
        lower(c) as int == if 65 <= c as int <= 90 {
            c as int + 32
        } else {
            c as int
        },
        upper(c) as int == if 97 <= c as int <= 122 {
            c as int - 32
        } else {
            c as int
        },
{
}

/// The ASCII letters and digits, by the numbers of their characters.
pub proof fn law_letters_and_digits(c: char)
    ensures
        is_letter(c) <==> 65 <= c as int <= 90 || 97 <= c as int <= 122,
        is_digit(c) <==> 48 <= c as int <= 57,
{
}

/// Texts stand in the order of the first characters in which they differ, and a text stands before
/// those that it is the beginning of.
pub proof fn law_precedes(a: Seq<char>, b: Seq<char>)
    ensures
        precedes(a, b) <==> exists|k: int|
            {
                &&& 0 <= k <= a.len() && k < b.len()
                &&& #[trigger] a.take(k) == b.take(k)
                &&& k == a.len() || a[k] < b[k]
            },
    decreases a.len(),
{
    if b.len() > 0 && a.len() > 0 && a[0] == b[0] {
        let (x, y) = (a.drop_first(), b.drop_first());
        law_precedes(x, y);
        if precedes(x, y) {
            let k = choose|k: int|
                {
                    &&& 0 <= k <= x.len() && k < y.len()
                    &&& #[trigger] x.take(k) == y.take(k)
                    &&& k == x.len() || x[k] < y[k]
                };
            assert(a.take(k + 1) =~= seq![a[0]] + x.take(k));
            assert(b.take(k + 1) =~= seq![b[0]] + y.take(k));
            assert(a.take(k + 1) == b.take(k + 1));
        }
        if exists|k: int|
            {
                &&& 0 <= k <= a.len() && k < b.len()
                &&& #[trigger] a.take(k) == b.take(k)
                &&& k == a.len() || a[k] < b[k]
            } {
            let k = choose|k: int|
                {
                    &&& 0 <= k <= a.len() && k < b.len()
                    &&& #[trigger] a.take(k) == b.take(k)
                    &&& k == a.len() || a[k] < b[k]
                };
            assert(k > 0);
            assert(x.take(k - 1) =~= a.take(k).drop_first());
            assert(y.take(k - 1) =~= b.take(k).drop_first());
            assert(x.take(k - 1) == y.take(k - 1));
        }
    } else if b.len() > 0 {
        assert(a.take(0) =~= b.take(0));
        if exists|k: int|
            {
                &&& 0 <= k <= a.len() && k < b.len()
                &&& #[trigger] a.take(k) == b.take(k)
                &&& k == a.len() || a[k] < b[k]
            } {
            let k = choose|k: int|
                {
                    &&& 0 <= k <= a.len() && k < b.len()
                    &&& #[trigger] a.take(k) == b.take(k)
                    &&& k == a.len() || a[k] < b[k]
                };
            if k > 0 {
                assert(a.take(k)[0] == a[0] && b.take(k)[0] == b[0]);
            }
        }
    }
}

/// Fields with a character between them.
pub open spec fn joined(fields: Seq<Seq<char>>, c: char) -> Seq<char>
    decreases fields.len(),
{
    if fields.len() == 0 {
        Seq::empty()
    } else if fields.len() == 1 {
        fields[0]
    } else {
        fields[0] + seq![c] + joined(fields.skip(1), c)
    }
}

/// The fields that a text is split into make it up again, with the character that it was split at
/// between them. That character stands in none of them but the last, and there only where as many
/// fields were made as were asked for.
pub proof fn law_fields_up_to(text: Seq<char>, c: char, n: nat)
    requires
        n >= 1,
    ensures
        ({
            let fields = fields_up_to(text, seq![c], n);
            &&& 1 <= fields.len() <= n
            &&& joined(fields, c) == text
            &&& forall|i: int|
                0 <= i < fields.len() && (i < fields.len() - 1 || fields.len() < n)
                    ==> !(#[trigger] fields[i]).contains(c)
        }),
    decreases n,
{
    let fields = fields_up_to(text, seq![c], n);
    lemma_cut_char(text, c);
    if n > 1 {
        match cut(text, seq![c]) {
            Some((first, rest)) => {
                law_fields_up_to(rest, c, (n - 1) as nat);
                let more = fields_up_to(rest, seq![c], (n - 1) as nat);
                assert(fields.skip(1) =~= more);
                assert forall|i: int|
                    0 <= i < fields.len() && (i < fields.len() - 1 || fields.len() < n) implies !(
                #[trigger] fields[i]).contains(c) by {
                    if i > 0 {
                        assert(fields[i] == more[i - 1]);
                    }
                }
            },
            None => {},
        }
    }
}

/// A text that is split at every place of a character has fields without it, that make it up again.
pub proof fn law_all_fields(text: Seq<char>, c: char)
    ensures
        ({
            let fields = all_fields(text, seq![c]);
            &&& fields.len() >= 1
            &&& joined(fields, c) == text
            &&& forall|i: int| 0 <= i < fields.len() ==> !(#[trigger] fields[i]).contains(c)
        }),
{
    let n = (text.len() + 2) as nat;
    lemma_fields_enough(text, seq![c], n);
    law_fields_up_to(text, c, n);
    lemma_few_fields(text, c, (text.len() + 1) as nat);
}

/// No text has more fields than characters, and one more.
proof fn lemma_few_fields(text: Seq<char>, c: char, n: nat)
    ensures
        fields_up_to(text, seq![c], n).len() <= text.len() + 1,
    decreases n,
{
    if n > 1 {
        lemma_cut_char(text, c);
        if let Some((first, rest)) = cut(text, seq![c]) {
            lemma_few_fields(rest, c, (n - 1) as nat);
        }
    }
}

/// A text is cut at the first of either character: neither stands in what comes before, and where
/// it is not cut, neither stands in it at all.
pub proof fn law_cut_either(text: Seq<char>, a: char, b: char)
    ensures
        match cut_either(text, a, b) {
            Some((before, after)) => {
                &&& text == before + seq![a] + after || text == before + seq![b] + after
                &&& !before.contains(a) && !before.contains(b)
            },
            None => !text.contains(a) && !text.contains(b),
        },
{
    if exists|i: int| first_either(text, a, b, i) {
        let i = choose|i: int| first_either(text, a, b, i);
        assert(first_either(text, a, b, i));
        assert(text =~= text.take(i) + seq![text[i]] + text.skip(i + 1));
    } else {
        if text.contains(a) || text.contains(b) {
            let k = choose|k: int| 0 <= k < text.len() && (text[k] == a || text[k] == b);
            lemma_some_either(text, a, b, k);
        }
    }
}

/// A character that is there has a first place.
proof fn lemma_some_either(text: Seq<char>, a: char, b: char, k: int)
    requires
        0 <= k < text.len(),
        text[k] == a || text[k] == b,
    ensures
        exists|i: int| first_either(text, a, b, i),
    decreases k,
{
    if exists|j: int| 0 <= j < k && (text[j] == a || text[j] == b) {
        let j = choose|j: int| 0 <= j < k && (text[j] == a || text[j] == b);
        lemma_some_either(text, a, b, j);
    } else {
        assert(first_either(text, a, b, k));
    }
}

/// Decimal notation: the last digit is what is left over from tens, and what stands before it is
/// the notation of the tens, unless there are none.
pub proof fn law_decimal(n: nat)
    ensures
        decimal(n).len() > 0,
        decimal(n).last() as int == 48 + n % 10,
        n < 10 ==> decimal(n).len() == 1,
        n >= 10 ==> decimal(n).drop_last() == decimal(n / 10),
        signed_decimal(n as int) == decimal(n),
        n > 0 ==> signed_decimal(-(n as int)) == seq!['-'] + decimal(n),
{
    if n >= 10 {
        assert(decimal(n).drop_last() =~= decimal(n / 10));
    }
}

/// A text denotes a whole number only where it is digits, with a sign before them or none; and then
/// it denotes the tens that all but the last digit denote, and that digit more.
pub proof fn law_i64_of(text: Seq<char>)
    ensures
        i64_of(text) is Some ==> text.len() > 0 && forall|i: int|
            0 <= i < text.len() ==> (48 <= #[trigger] text[i] as int <= 57) || (i == 0 && text.len()
                > 1 && (text[0] == '+' || text[0] == '-')),
        forall|d: char|
            48 <= d as int <= 57 && text.len() > 0 && text.last() != '+' && text.last() != '-' && (
            #[trigger] i64_of(text.push(d)) is Some) ==> i64_of(text) is Some && i64_of(
                text.push(d),
            ).unwrap() as int == i64_of(text).unwrap() * 10 + if text[0] == '-' {
                48 - d as int
            } else {
                d as int - 48
            },
{
    let signed = text.len() > 0 && (text[0] == '+' || text[0] == '-');
    if i64_of(text) is Some {
        assert forall|i: int| 0 <= i < text.len() implies (48 <= #[trigger] text[i] as int <= 57) || (i
            == 0 && text.len() > 1 && (text[0] == '+' || text[0] == '-')) by {
            if signed {
                if i > 0 {
                    assert(is_digit(text.skip(1)[i - 1]));
                }
            } else {
                assert(is_digit(text[i]));
            }
        }
    }
    assert forall|d: char|
        48 <= d as int <= 57 && text.len() > 0 && text.last() != '+' && text.last() != '-' && (
        #[trigger] i64_of(text.push(d)) is Some) implies i64_of(text) is Some && i64_of(
        text.push(d),
    ).unwrap() as int == i64_of(text).unwrap() * 10 + if text[0] == '-' {
        48 - d as int
    } else {
        d as int - 48
    } by {
        let more = text.push(d);
        if signed {
            assert(more.skip(1) =~= text.skip(1).push(d));
            assert(more.skip(1).drop_last() =~= text.skip(1));
            assert forall|i: int| 0 <= i < text.skip(1).len() implies is_digit(
                #[trigger] text.skip(1)[i],
            ) by {
                assert(is_digit(more.skip(1)[i]));
            }
        } else {
            assert(more.drop_last() =~= text);
            assert forall|i: int| 0 <= i < text.len() implies is_digit(#[trigger] text[i]) by {
                assert(is_digit(more[i]));
            }
        }
    }
}

/// A digit denotes itself; a plus before a text changes nothing, and a minus makes the number negative.
/// A further digit is read wherever 64 bits hold what comes of it.
pub proof fn law_digits_and_signs(text: Seq<char>, d: char)
    requires
        48 <= d as int <= 57,
    ensures
        i64_of(seq![d]) == Some((d as int - 48) as i64),
        text.len() > 0 && text[0] != '+' && text[0] != '-' ==> i64_of(seq!['+'] + text) == i64_of(text),
        text.len() > 0 && text[0] != '+' && text[0] != '-' && i64_of(text) is Some ==> i64_of(
            seq!['-'] + text,
        ) == Some((-i64_of(text).unwrap()) as i64),
        i64_of(text) is Some && text[0] != '-' && i64_of(text).unwrap() * 10 + (d as int - 48)
            <= i64::MAX ==> i64_of(text.push(d)) is Some,
        i64_of(text) is Some && text[0] == '-' && i64_of(text).unwrap() * 10 - (d as int - 48)
            >= i64::MIN ==> i64_of(text.push(d)) is Some,
{
    let one = seq![d];
    assert(one.drop_last() =~= Seq::<char>::empty());
    assert(crate::decimal::digits_value(Seq::<char>::empty()) == 0);
    assert(crate::decimal::digits_value(one) == d as int - 48);
    assert(is_digit(one[0]));
    assert((seq!['+'] + text).skip(1) =~= text);
    assert((seq!['-'] + text).skip(1) =~= text);
    if i64_of(text) is Some {
        let more = text.push(d);
        if text[0] == '+' || text[0] == '-' {
            assert(more.skip(1) =~= text.skip(1).push(d));
            assert(more.skip(1).drop_last() =~= text.skip(1));
            assert forall|i: int| 0 <= i < more.skip(1).len() implies is_digit(
                #[trigger] more.skip(1)[i],
            ) by {
                if i < text.skip(1).len() {
                    assert(more.skip(1)[i] == text.skip(1)[i]);
                }
            }
        } else {
            assert(more.drop_last() =~= text);
            assert forall|i: int| 0 <= i < more.len() implies is_digit(#[trigger] more[i]) by {
                if i < text.len() {
                    assert(more[i] == text[i]);
                }
            }
        }
    }
}

/// A whole number as JSON writes one is digits, at least one of them, with a minus before them or
/// nothing.
pub proof fn law_is_whole(text: Seq<char>)
    ensures
        is_whole(text) <==> {
            &&& text.len() > 0
            &&& text == seq!['-'] ==> false
            &&& forall|i: int|
                0 <= i < text.len() ==> (48 <= #[trigger] text[i] as int <= 57) || (i == 0 && text[0]
                    == '-')
        },
{
    let signed = text.len() > 0 && text[0] == '-';
    if is_whole(text) {
        assert forall|i: int| 0 <= i < text.len() implies (48 <= #[trigger] text[i] as int <= 57) || (i
            == 0 && text[0] == '-') by {
            if signed {
                if i > 0 {
                    assert(is_digit(text.skip(1)[i - 1]));
                }
            } else {
                assert(is_digit(text[i]));
            }
        }
    }
    if signed && text.len() == 1 {
        assert(text =~= seq!['-']);
    }
}

}
