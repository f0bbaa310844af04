//! Cutting and comparing strings.
//!
//! A string is seen as the sequence of its characters. The executable functions work on the
//! UTF-8 bytes and cut at byte offsets; the lemmas here show that what they find in the bytes
//! is what the contracts say of the characters.
use vstd::prelude::*;
use vstd::string::*;
use vstd::utf8::*;

verus! {

/// `part` stands in `text` from character `at` on.
pub open spec fn occurs_at(text: Seq<char>, part: Seq<char>, at: int) -> bool {
    0 <= at && at + part.len() <= text.len() && text.subrange(at, at + part.len()) == part
}

/// `at` is the first place where `part` stands in `text`.
pub open spec fn first_at(text: Seq<char>, part: Seq<char>, at: int) -> bool {
    occurs_at(text, part, at) && forall|j: int| 0 <= j < at ==> !occurs_at(text, part, j)
}

/// `text` cut at the first `mark`: what stands before it and what stands after it.
pub open spec fn cut(text: Seq<char>, mark: Seq<char>) -> Option<(Seq<char>, Seq<char>)> {
    if exists|i: int| first_at(text, mark, i) {
        let i = choose|i: int| first_at(text, mark, i);
        Some((text.take(i), text.skip(i + mark.len())))
    } else {
        None
    }
}

/// `at` is the last place where `part` stands in `text`.
pub open spec fn last_at(text: Seq<char>, part: Seq<char>, at: int) -> bool {
    occurs_at(text, part, at) && forall|j: int| at < j ==> !occurs_at(text, part, j)
}

/// `text` cut at the last `mark`: what stands before it and what stands after it.
pub open spec fn cut_last(text: Seq<char>, mark: Seq<char>) -> Option<(Seq<char>, Seq<char>)> {
    if exists|i: int| last_at(text, mark, i) {
        let i = choose|i: int| last_at(text, mark, i);
        Some((text.take(i), text.skip(i + mark.len())))
    } else {
        None
    }
}

/// What follows `head` in `text`, if `text` begins with it.
pub open spec fn after_head(text: Seq<char>, head: Seq<char>) -> Option<Seq<char>> {
    if head.is_prefix_of(text) {
        Some(text.skip(head.len() as int))
    } else {
        None
    }
}

/// What stands before `tail` in `text`, if `text` ends with it.
pub open spec fn before_tail(text: Seq<char>, tail: Seq<char>) -> Option<Seq<char>> {
    if tail.is_suffix_of(text) {
        Some(text.take(text.len() - tail.len()))
    } else {
        None
    }
}

/// `text` without the run of `c` that it begins with.
pub open spec fn without_leading(text: Seq<char>, c: char) -> Seq<char>
    decreases text.len(),
{
    if text.len() > 0 && text[0] == c {
        without_leading(text.drop_first(), c)
    } else {
        text
    }
}

/// `text` without the run of `c` that it ends with.
pub open spec fn without_trailing(text: Seq<char>, c: char) -> Seq<char>
    decreases text.len(),
{
    if text.len() > 0 && text.last() == c {
        without_trailing(text.drop_last(), c)
    } else {
        text
    }
}

/// `a` comes before `b` in the order of their characters, as in a dictionary.
pub open spec fn precedes(a: Seq<char>, b: Seq<char>) -> bool
    decreases a.len(),
{
    if b.len() == 0 {
        false
    } else if a.len() == 0 {
        true
    } else if a[0] != b[0] {
        a[0] < b[0]
    } else {
        precedes(a.drop_first(), b.drop_first())
    }
}

/// A character with the Unicode property `White_Space`.
pub open spec fn is_white(c: char) -> bool {
    ||| '\t' <= c <= '\r'
    ||| c == ' '
    ||| c == '\u{85}'
    ||| c == '\u{a0}'
    ||| c == '\u{1680}'
    ||| '\u{2000}' <= c <= '\u{200a}'
    ||| c == '\u{2028}'
    ||| c == '\u{2029}'
    ||| c == '\u{202f}'
    ||| c == '\u{205f}'
    ||| c == '\u{3000}'
}

/// `text` without the white space that it begins and ends with.
pub open spec fn trimmed(text: Seq<char>) -> Seq<char>
    decreases text.len(),
{
    if text.len() > 0 && is_white(text[0]) {
        trimmed(text.drop_first())
    } else if text.len() > 0 && is_white(text.last()) {
        trimmed(text.drop_last())
    } else {
        text
    }
}

/// `c` in lower case, if it is an ASCII letter.
pub open spec fn lower(c: char) -> char {
    if 'A' <= c <= 'Z' {
        (c as u8 + 32) as char
    } else {
        c
    }
}

/// `c` in upper case, if it is an ASCII letter.
pub open spec fn upper(c: char) -> char {
    if 'a' <= c <= 'z' {
        (c as u8 - 32) as char
    } else {
        c
    }
}

/// An ASCII letter.
pub open spec fn is_letter(c: char) -> bool {
    'a' <= c <= 'z' || 'A' <= c <= 'Z'
}

/// An ASCII decimal digit.
pub open spec fn is_digit(c: char) -> bool {
    '0' <= c <= '9'
}

/// The views of an optional pair of strings.
pub open spec fn pair_view(pair: Option<(&str, &str)>) -> Option<(Seq<char>, Seq<char>)> {
    match pair {
        Some((a, b)) => Some((a@, b@)),
        None => None,
    }
}

/// The view of an optional string.
pub open spec fn str_view(text: Option<&str>) -> Option<Seq<char>> {
    match text {
        Some(t) => Some(t@),
        None => None,
    }
}

pub proof fn lemma_encode_concat(a: Seq<char>, b: Seq<char>)
    ensures
        encode_utf8(a + b) == encode_utf8(a) + encode_utf8(b),
    decreases a.len(),
{
    if a.len() == 0 {
        assert(a + b =~= b);
    } else {
        lemma_encode_concat(a.drop_first(), b);
        assert((a + b).drop_first() =~= a.drop_first() + b);
        assert(encode_utf8(a + b) =~= encode_utf8(a) + encode_utf8(b));
    }
}

pub proof fn lemma_encode_injective(a: Seq<char>, b: Seq<char>)
    requires
        encode_utf8(a) == encode_utf8(b),
    ensures
        a == b,
{
    encode_utf8_decode_utf8(a);
    encode_utf8_decode_utf8(b);
}

pub proof fn lemma_boundary(a: Seq<char>, b: Seq<char>)
    ensures
        is_char_boundary(encode_utf8(a + b), encode_utf8(a).len() as int),
    decreases a.len(),
{
    encode_utf8_valid_utf8(a + b);
    if a.len() == 0 {
    } else {
        encode_utf8_first_scalar(a + b);
        let bytes = encode_utf8(a + b);
        assert((a + b).drop_first() =~= a.drop_first() + b);
        assert(pop_first_scalar(bytes) =~= encode_utf8(a.drop_first() + b));
        lemma_encode_concat(a, b);
        lemma_boundary(a.drop_first(), b);
    }
}

pub proof fn lemma_prefix(head: Seq<char>, text: Seq<char>)
    ensures
        encode_utf8(head).is_prefix_of(encode_utf8(text)) <==> head.is_prefix_of(text),
{
    if head.is_prefix_of(text) {
        let rest = text.skip(head.len() as int);
        assert(text =~= head + rest);
        lemma_encode_concat(head, rest);
        assert(encode_utf8(text).subrange(0, encode_utf8(head).len() as int) =~= encode_utf8(head));
    }
    if encode_utf8(head).is_prefix_of(encode_utf8(text)) {
        let bytes = encode_utf8(text);
        let n = encode_utf8(head).len() as int;
        encode_utf8_valid_utf8(head);
        encode_utf8_valid_utf8(text);
        assert(bytes.subrange(0, n) =~= encode_utf8(head));
        let rest = bytes.subrange(n, bytes.len() as int);
        if !valid_utf8(rest) {
            partial_valid_partial_invalid_utf8(bytes, n);
        }
        decode_utf8_encode_utf8(rest);
        lemma_encode_concat(head, decode_utf8(rest));
        assert(bytes =~= encode_utf8(head) + rest);
        lemma_encode_injective(text, head + decode_utf8(rest));
        assert(text.subrange(0, head.len() as int) =~= head);
    }
}

pub proof fn lemma_suffix(tail: Seq<char>, text: Seq<char>)
    ensures
        encode_utf8(tail).is_suffix_of(encode_utf8(text)) <==> tail.is_suffix_of(text),
{
    let bytes = encode_utf8(text);
    let end = encode_utf8(tail);
    if tail.is_suffix_of(text) {
        let rest = text.take(text.len() - tail.len());
        assert(text =~= rest + tail);
        lemma_encode_concat(rest, tail);
        assert(bytes.subrange(bytes.len() - end.len(), bytes.len() as int) =~= end);
    }
    if end.is_suffix_of(bytes) {
        if tail.len() == 0 {
            assert(text.subrange(text.len() - tail.len(), text.len() as int) =~= tail);
        } else {
            let n = bytes.len() - end.len();
            encode_utf8_valid_utf8(tail);
            encode_utf8_valid_utf8(text);
            encode_utf8_first_scalar(tail);
            assert(bytes.subrange(n, bytes.len() as int) =~= end);
            assert(bytes[n] == end[0]);
            is_char_boundary_iff_not_is_continuation_byte(bytes, n);
            valid_utf8_split(bytes, n);
            let rest = bytes.subrange(0, n);
            decode_utf8_encode_utf8(rest);
            lemma_encode_concat(decode_utf8(rest), tail);
            assert(bytes =~= rest + end);
            lemma_encode_injective(text, decode_utf8(rest) + tail);
            assert(text.subrange(text.len() - tail.len(), text.len() as int) =~= tail);
        }
    }
}

/// The first place is unique, so a place that is first is where the text is cut.
pub proof fn lemma_cut(text: Seq<char>, mark: Seq<char>, at: int)
    requires
        first_at(text, mark, at),
    ensures
        cut(text, mark) == Some((text.take(at), text.skip(at + mark.len()))),
{
    let i = choose|i: int| first_at(text, mark, i);
    assert(first_at(text, mark, i));
    if i < at {
        assert(!occurs_at(text, mark, i));
    } else if at < i {
        assert(!occurs_at(text, mark, at));
    }
}

/// The last mark is unique.
pub proof fn lemma_cut_last(text: Seq<char>, mark: Seq<char>, at: int)
    requires
        last_at(text, mark, at),
    ensures
        cut_last(text, mark) == Some((text.take(at), text.skip(at + mark.len()))),
{
    let other = choose|i: int| last_at(text, mark, i);
    assert(last_at(text, mark, other));
    assert(other == at);
}

/// Of two texts that differ, one comes before the other, and only one.
pub proof fn lemma_precedes_total(a: Seq<char>, b: Seq<char>)
    ensures
        a != b ==> (precedes(a, b) <==> !precedes(b, a)),
        !precedes(a, a),
    decreases a.len(),
{
    if a.len() > 0 {
        lemma_precedes_total(a.drop_first(), a.drop_first());
        if b.len() > 0 && a[0] == b[0] {
            lemma_precedes_total(a.drop_first(), b.drop_first());
            if a.drop_first() == b.drop_first() {
                assert(a =~= seq![a[0]] + a.drop_first());
                assert(b =~= seq![b[0]] + b.drop_first());
            }
        }
    } else if b.len() == 0 {
        assert(a =~= b);
    }
}

/// What comes before a text comes before all that follow it.
pub proof fn lemma_precedes_transitive(a: Seq<char>, b: Seq<char>, c: Seq<char>)
    requires
        precedes(a, b),
        precedes(b, c),
    ensures
        precedes(a, c),
    decreases a.len(),
{
    if a.len() > 0 && a[0] == b[0] && b[0] == c[0] {
        lemma_precedes_transitive(a.drop_first(), b.drop_first(), c.drop_first());
    }
}

/// What two texts have in common at their heads does not matter to their order.
proof fn lemma_precedes_skip(a: Seq<char>, b: Seq<char>, n: int)
    requires
        0 <= n <= a.len(),
        n <= b.len(),
        a.take(n) == b.take(n),
    ensures
        precedes(a, b) == precedes(a.skip(n), b.skip(n)),
    decreases n,
{
    if n == 0 {
        assert(a.skip(0) =~= a);
        assert(b.skip(0) =~= b);
    } else {
        assert(a.take(n)[0] == a[0] && b.take(n)[0] == b[0]);
        let (x, y) = (a.drop_first(), b.drop_first());
        assert(x.take(n - 1) =~= a.take(n).drop_first());
        assert(y.take(n - 1) =~= b.take(n).drop_first());
        lemma_precedes_skip(x, y, n - 1);
        assert(x.skip(n - 1) =~= a.skip(n));
        assert(y.skip(n - 1) =~= b.skip(n));
    }
}

/// Where the character at index `at` begins in the encoding of `text`, and how far it reaches.
proof fn lemma_next_char(text: Seq<char>, at: int)
    requires
        0 <= at < text.len(),
    ensures
        ({
            let start = encode_utf8(text.take(at)).len();
            let end = encode_utf8(text.take(at + 1)).len();
            let lead = encode_utf8(text)[start as int];
            &&& start < end <= encode_utf8(text).len()
            &&& lead < 0x80 ==> end == start + 1
            &&& 0x80 <= lead < 0xe0 ==> end == start + 2
            &&& 0xe0 <= lead < 0xf0 ==> end == start + 3
            &&& 0xf0 <= lead ==> end == start + 4
        }),
{
    let rest = text.skip(at);
    let one = seq![text[at]];
    assert(text =~= text.take(at) + rest);
    lemma_encode_concat(text.take(at), rest);
    encode_utf8_first_scalar(rest);
    assert(text.take(at + 1) =~= text.take(at) + one);
    lemma_encode_concat(text.take(at), one);
    assert(one.drop_first() =~= Seq::<char>::empty());
    assert(encode_utf8(one) =~= encode_scalar(text[at] as u32)) by {
        reveal_with_fuel(encode_utf8, 2);
    }
    assert(text =~= text.take(at + 1) + text.skip(at + 1));
    lemma_encode_concat(text.take(at + 1), text.skip(at + 1));
    assert(encode_utf8(text)[encode_utf8(text.take(at)).len() as int] == encode_utf8(rest)[0]);
}

/// The number of bytes that the character led by this byte takes.
fn char_width(lead: u8) -> (width: usize)
    ensures
        lead < 0x80 ==> width == 1,
        0x80 <= lead < 0xe0 ==> width == 2,
        0xe0 <= lead < 0xf0 ==> width == 3,
        0xf0 <= lead ==> width == 4,
{
    if lead < 0x80 {
        1
    } else if lead < 0xe0 {
        2
    } else if lead < 0xf0 {
        3
    } else {
        4
    }
}

/// Whether `part` stands in `bytes` from byte `at` on.
fn bytes_at(bytes: &[u8], part: &[u8], at: usize) -> (found: bool)
    requires
        at <= bytes@.len(),
    ensures
        found == part@.is_prefix_of(bytes@.skip(at as int)),
{
    if part.len() > bytes.len() - at {
        return false;
    }
    let size = bytes.len();
    let mut k: usize = 0;
    while k < part.len()
        invariant
            size == bytes@.len(),
            at + part@.len() <= size,
            k <= part@.len(),
            forall|j: int| 0 <= j < k ==> part@[j] == bytes@[at + j],
        decreases part@.len() - k,
    {
        if part[k] != bytes[at + k] {
            assert(bytes@.skip(at as int)[k as int] != part@[k as int]);
            assert(!part@.is_prefix_of(bytes@.skip(at as int)));
            return false;
        }
        k = k + 1;
    }
    assert(part@ =~= bytes@.skip(at as int).subrange(0, part@.len() as int));
    true
}

/// Whether two strings are the same.
pub fn same(a: &str, b: &str) -> (equal: bool)
    ensures
        equal == (a@ == b@),
{
    let x = a.as_bytes();
    let y = b.as_bytes();
    if x.len() != y.len() {
        return false;
    }
    let equal = bytes_at(x, y, 0);
    proof {
        assert(x@.skip(0) =~= x@);
        if equal {
            assert(x@ =~= y@);
            lemma_encode_injective(a@, b@);
        }
    }
    equal
}

/// Whether `text` begins with `head`.
pub fn starts_with(text: &str, head: &str) -> (found: bool)
    ensures
        found == head@.is_prefix_of(text@),
{
    proof {
        lemma_prefix(head@, text@);
    }
    let bytes = text.as_bytes();
    assert(bytes@.skip(0) =~= bytes@);
    bytes_at(bytes, head.as_bytes(), 0)
}

/// Cuts `text` behind its first `at` characters, `offset` bytes in.
fn split_chars<'a>(text: &'a str, offset: usize, at: Ghost<int>) -> (halves: (&'a str, &'a str))
    requires
        0 <= at@ <= text@.len(),
        offset == encode_utf8(text@.take(at@)).len(),
    ensures
        halves.0@ == text@.take(at@),
        halves.1@ == text@.skip(at@),
{
    proof {
        let a = text@.take(at@);
        let b = text@.skip(at@);
        assert(text@ =~= a + b);
        lemma_boundary(a, b);
        lemma_encode_concat(a, b);
        assert(text.spec_bytes().subrange(0, offset as int) =~= encode_utf8(a));
        assert(text.spec_bytes().subrange(offset as int, text.spec_bytes().len() as int)
            =~= encode_utf8(b));
    }
    let halves = text.split_at(offset);
    proof {
        lemma_encode_injective(halves.0@, text@.take(at@));
        lemma_encode_injective(halves.1@, text@.skip(at@));
    }
    halves
}

/// What follows `head` in `text`, if `text` begins with it.
pub fn strip_prefix<'a>(text: &'a str, head: &str) -> (rest: Option<&'a str>)
    ensures
        str_view(rest) == after_head(text@, head@),
{
    if starts_with(text, head) {
        assert(text@.take(head@.len() as int) =~= head@);
        Some(split_chars(text, head.as_bytes().len(), Ghost(head@.len() as int)).1)
    } else {
        None
    }
}

/// What stands before `tail` in `text`, if `text` ends with it.
pub fn strip_suffix<'a>(text: &'a str, tail: &str) -> (rest: Option<&'a str>)
    ensures
        str_view(rest) == before_tail(text@, tail@),
{
    let bytes = text.as_bytes();
    let end = tail.as_bytes();
    proof {
        lemma_suffix(tail@, text@);
    }
    if end.len() > bytes.len() {
        return None;
    }
    let at = bytes.len() - end.len();
    if bytes_at(bytes, end, at) {
        proof {
            assert(bytes@.skip(at as int) =~= end@);
            assert(end@ =~= bytes@.subrange(bytes@.len() - end@.len(), bytes@.len() as int));
            let rest = text@.take(text@.len() - tail@.len());
            assert(text@ =~= rest + tail@);
            lemma_encode_concat(rest, tail@);
        }
        Some(split_chars(text, at, Ghost(text@.len() - tail@.len())).0)
    } else {
        proof {
            if end@.is_suffix_of(bytes@) {
                assert(bytes@.skip(at as int).subrange(0, end@.len() as int) =~= end@);
            }
        }
        None
    }
}

/// Cuts `text` at the first `mark`.
pub fn split_once<'a>(text: &'a str, mark: &str) -> (halves: Option<(&'a str, &'a str)>)
    requires
        mark@.len() > 0,
    ensures
        pair_view(halves) == cut(text@, mark@),
{
    let bytes = text.as_bytes();
    let part = mark.as_bytes();
    let mut offset: usize = 0;
    let ghost mut i: int = 0;
    assert(text@.take(0) =~= Seq::<char>::empty());
    while offset < bytes.len()
        invariant
            0 <= i <= text@.len(),
            bytes@ == encode_utf8(text@),
            part@ == encode_utf8(mark@),
            mark@.len() > 0,
            offset == encode_utf8(text@.take(i)).len(),
            offset <= bytes@.len(),
            forall|j: int| 0 <= j < i ==> !occurs_at(text@, mark@, j),
        decreases bytes@.len() - offset,
    {
        proof {
            assert(text@ =~= text@.take(i) + text@.skip(i));
            lemma_encode_concat(text@.take(i), text@.skip(i));
            assert(bytes@.skip(offset as int) =~= encode_utf8(text@.skip(i)));
            lemma_prefix(mark@, text@.skip(i));
        }
        if bytes_at(bytes, part, offset) {
            proof {
                assert(text@.subrange(i, i + mark@.len()) =~= text@.skip(i).subrange(
                    0,
                    mark@.len() as int,
                ));
                assert(first_at(text@, mark@, i));
                lemma_cut(text@, mark@, i);
            }
            let (before, rest) = split_chars(text, offset, Ghost(i));
            assert(rest@.take(mark@.len() as int) =~= mark@);
            let (_, after) = split_chars(rest, part.len(), Ghost(mark@.len() as int));
            assert(after@ =~= text@.skip(i + mark@.len()));
            return Some((before, after));
        }
        proof {
            if i == text@.len() {
                assert(text@.take(i) =~= text@);
            }
            lemma_next_char(text@, i);
            if occurs_at(text@, mark@, i) {
                assert(text@.skip(i).subrange(0, mark@.len() as int) =~= text@.subrange(
                    i,
                    i + mark@.len(),
                ));
            }
            i = i + 1;
        }
        let width = char_width(bytes[offset]);
        offset = offset + width;
    }
    proof {
        if i < text@.len() {
            assert(text@ =~= text@.take(i) + text@.skip(i));
            lemma_encode_concat(text@.take(i), text@.skip(i));
            encode_utf8_first_scalar(text@.skip(i));
        }
        assert forall|j: int| !first_at(text@, mark@, j) by {
            if first_at(text@, mark@, j) {
                assert(occurs_at(text@, mark@, j));
            }
        }
    }
    None
}

/// Cuts `text` at the last `mark`.
pub fn split_last<'a>(text: &'a str, mark: &str) -> (halves: Option<(&'a str, &'a str)>)
    requires
        mark@.len() > 0,
    ensures
        pair_view(halves) == cut_last(text@, mark@),
{
    let bytes = text.as_bytes();
    let part = mark.as_bytes();
    let mut found: Option<usize> = None;
    let ghost mut at: int = -1;
    let mut offset: usize = 0;
    let ghost mut i: int = 0;
    assert(text@.take(0) =~= Seq::<char>::empty());
    while offset < bytes.len()
        invariant
            0 <= i <= text@.len(),
            bytes@ == encode_utf8(text@),
            part@ == encode_utf8(mark@),
            mark@.len() > 0,
            offset == encode_utf8(text@.take(i)).len(),
            offset <= bytes@.len(),
            at < i,
            match found {
                Some(place) => occurs_at(text@, mark@, at) && place == encode_utf8(
                    text@.take(at),
                ).len(),
                None => at == -1,
            },
            forall|j: int| at < j < i ==> !occurs_at(text@, mark@, j),
        decreases bytes@.len() - offset,
    {
        proof {
            assert(text@ =~= text@.take(i) + text@.skip(i));
            lemma_encode_concat(text@.take(i), text@.skip(i));
            assert(bytes@.skip(offset as int) =~= encode_utf8(text@.skip(i)));
            lemma_prefix(mark@, text@.skip(i));
            if i == text@.len() {
                assert(text@.take(i) =~= text@);
            }
            if i + mark@.len() <= text@.len() {
                assert(text@.skip(i).subrange(0, mark@.len() as int) =~= text@.subrange(
                    i,
                    i + mark@.len(),
                ));
            }
        }
        if bytes_at(bytes, part, offset) {
            found = Some(offset);
            proof {
                at = i;
            }
        }
        proof {
            lemma_next_char(text@, i);
            i = i + 1;
        }
        let width = char_width(bytes[offset]);
        offset = offset + width;
    }
    proof {
        if i < text@.len() {
            assert(text@ =~= text@.take(i) + text@.skip(i));
            lemma_encode_concat(text@.take(i), text@.skip(i));
            encode_utf8_first_scalar(text@.skip(i));
        }
    }
    match found {
        Some(place) => {
            proof {
                assert(last_at(text@, mark@, at));
                lemma_cut_last(text@, mark@, at);
            }
            let (before, rest) = split_chars(text, place, Ghost(at));
            assert(rest@.take(mark@.len() as int) =~= mark@);
            let (_, after) = split_chars(rest, part.len(), Ghost(mark@.len() as int));
            assert(after@ =~= text@.skip(at + mark@.len()));
            Some((before, after))
        },
        None => {
            assert forall|j: int| !last_at(text@, mark@, j) by {
                if last_at(text@, mark@, j) {
                    assert(occurs_at(text@, mark@, j));
                }
            }
            None
        },
    }
}

/// `String::push` appends the character.
pub assume_specification[ String::push ](text: &mut String, c: char)
    ensures
        final(text)@ == old(text)@.push(c),
;

/// The characters of `text`, in order.
pub fn chars_of(text: &str) -> (chars: Vec<char>)
    ensures
        chars@ == text@,
{
    let mut chars: Vec<char> = Vec::new();
    for c in it: text.chars()
        invariant
            chars@ == it.seq().take(it.index()),
            it.seq() == text@,
    {
        chars.push(c);
    }
    chars
}

/// Whether `a` comes before `b`.
pub fn comes_before(a: &str, b: &str) -> (before: bool)
    ensures
        before == precedes(a@, b@),
{
    let first = chars_of(a);
    let second = chars_of(b);
    let mut i: usize = 0;
    while i < first.len() && i < second.len() && first[i] == second[i]
        invariant
            i <= first@.len(),
            i <= second@.len(),
            first@.take(i as int) == second@.take(i as int),
        decreases first@.len() - i,
    {
        assert(first@.take(i + 1) =~= first@.take(i as int).push(first@[i as int]));
        assert(second@.take(i + 1) =~= second@.take(i as int).push(second@[i as int]));
        i = i + 1;
    }
    proof {
        lemma_precedes_skip(first@, second@, i as int);
    }
    if i >= second.len() {
        false
    } else if i >= first.len() {
        true
    } else {
        first[i] < second[i]
    }
}

/// `text` without the run of `mark`, a single character, that it begins with.
pub fn trim_start<'a>(text: &'a str, mark: &str) -> (rest: &'a str)
    requires
        mark@.len() == 1,
    ensures
        rest@ == without_leading(text@, mark@[0]),
{
    let mut rest: &'a str = text;
    loop
        invariant
            mark@.len() == 1,
            without_leading(rest@, mark@[0]) == without_leading(text@, mark@[0]),
        ensures
            rest@ == without_leading(text@, mark@[0]),
        decreases rest@.len(),
    {
        assert(mark@ =~= seq![mark@[0]]);
        let ghost before = rest@;
        match strip_prefix(rest, mark) {
            Some(shorter) => {
                assert(before[0] == mark@[0]);
                assert(before.drop_first() =~= shorter@);
                rest = shorter;
            },
            None => {
                proof {
                    if before.len() > 0 && before[0] == mark@[0] {
                        assert(before.subrange(0, 1) =~= mark@);
                    }
                }
                break;
            },
        }
    }
    rest
}

/// `text` without the run of `mark`, a single character, that it ends with.
pub fn trim_end<'a>(text: &'a str, mark: &str) -> (rest: &'a str)
    requires
        mark@.len() == 1,
    ensures
        rest@ == without_trailing(text@, mark@[0]),
{
    let mut rest: &'a str = text;
    loop
        invariant
            mark@.len() == 1,
            without_trailing(rest@, mark@[0]) == without_trailing(text@, mark@[0]),
        ensures
            rest@ == without_trailing(text@, mark@[0]),
        decreases rest@.len(),
    {
        assert(mark@ =~= seq![mark@[0]]);
        let ghost before = rest@;
        match strip_suffix(rest, mark) {
            Some(shorter) => {
                assert(before.last() == mark@[0]) by {
                    assert(before.subrange(before.len() - 1, before.len() as int)[0] == mark@[0]);
                }
                assert(before.drop_last() =~= shorter@);
                rest = shorter;
            },
            None => {
                proof {
                    if before.len() > 0 && before.last() == mark@[0] {
                        assert(before.subrange(before.len() - 1, before.len() as int) =~= mark@);
                    }
                }
                break;
            },
        }
    }
    rest
}

/// Whether `c` is white space.
fn white(c: char) -> (found: bool)
    ensures
        found == is_white(c),
{
    ('\t' <= c && c <= '\r') || c == ' ' || c == '\u{85}' || c == '\u{a0}' || c == '\u{1680}' || (
    '\u{2000}' <= c && c <= '\u{200a}') || c == '\u{2028}' || c == '\u{2029}' || c == '\u{202f}' || c
        == '\u{205f}' || c == '\u{3000}'
}

/// `text` without the white space that it begins and ends with.
pub fn trim(text: &str) -> (rest: String)
    ensures
        rest@ == trimmed(text@),
{
    let chars = chars_of(text);
    let mut start: usize = 0;
    let mut end: usize = chars.len();
    assert(text@.subrange(0, end as int) =~= text@);
    while start < end && white(chars[start])
        invariant
            start <= end == chars@.len(),
            chars@ == text@,
            trimmed(chars@.subrange(start as int, end as int)) == trimmed(text@),
        decreases end - start,
    {
        proof {
            let now = chars@.subrange(start as int, end as int);
            assert(now.drop_first() =~= chars@.subrange(start + 1, end as int));
        }
        start = start + 1;
    }
    while start < end && white(chars[end - 1])
        invariant
            start <= end <= chars@.len(),
            chars@ == text@,
            start < end ==> !is_white(chars@[start as int]),
            trimmed(chars@.subrange(start as int, end as int)) == trimmed(text@),
        decreases end - start,
    {
        proof {
            let now = chars@.subrange(start as int, end as int);
            assert(now.drop_last() =~= chars@.subrange(start as int, end - 1));
        }
        end = end - 1;
    }
    let mut rest = String::new();
    let mut i: usize = start;
    while i < end
        invariant
            start <= i <= end <= chars@.len(),
            rest@ == chars@.subrange(start as int, i as int),
        decreases end - i,
    {
        rest.push(chars[i]);
        i = i + 1;
    }
    rest
}

/// `text` with its ASCII letters in lower case.
pub fn to_lower(text: &str) -> (low: String)
    ensures
        low@ == text@.map_values(|c: char| lower(c)),
{
    let chars = chars_of(text);
    let mut low = String::new();
    let mut i: usize = 0;
    while i < chars.len()
        invariant
            i <= chars@.len(),
            chars@ == text@,
            low@ == text@.take(i as int).map_values(|c: char| lower(c)),
        decreases chars@.len() - i,
    {
        let c = chars[i];
        low.push(if 'A' <= c && c <= 'Z' { (c as u8 + 32) as char } else { c });
        assert(text@.take(i + 1) =~= text@.take(i as int).push(c));
        i = i + 1;
    }
    assert(text@.take(i as int) =~= text@);
    low
}

/// `text` with its ASCII letters in upper case.
pub fn to_upper(text: &str) -> (up: String)
    ensures
        up@ == text@.map_values(|c: char| upper(c)),
{
    let chars = chars_of(text);
    let mut up = String::new();
    let mut i: usize = 0;
    while i < chars.len()
        invariant
            i <= chars@.len(),
            chars@ == text@,
            up@ == text@.take(i as int).map_values(|c: char| upper(c)),
        decreases chars@.len() - i,
    {
        let c = chars[i];
        up.push(if 'a' <= c && c <= 'z' { (c as u8 - 32) as char } else { c });
        assert(text@.take(i + 1) =~= text@.take(i as int).push(c));
        i = i + 1;
    }
    assert(text@.take(i as int) =~= text@);
    up
}

}
