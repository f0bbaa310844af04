//! Whole numbers in decimal notation.
use vstd::prelude::*;

use crate::text::chars_of;
use crate::text::is_digit;

verus! {

/// The digit character of `d`, for `d` below ten.
pub open spec fn digit_char(d: nat) -> char {
    (('0' as u8) + d) as char
}

/// `n` in decimal notation, without leading zeros.
pub open spec fn decimal(n: nat) -> Seq<char>
    decreases n,
{
    if n < 10 {
        seq![digit_char(n)]
    } else {
        decimal(n / 10).push(digit_char(n % 10))
    }
}

/// `i` in decimal notation, with a sign if it is negative.
pub open spec fn signed_decimal(i: int) -> Seq<char> {
    if i < 0 {
        seq!['-'] + decimal((-i) as nat)
    } else {
        decimal(i as nat)
    }
}

/// Nothing but decimal digits.
pub open spec fn all_digits(text: Seq<char>) -> bool {
    forall|i: int| 0 <= i < text.len() ==> is_digit(#[trigger] text[i])
}

/// The number that a run of digits denotes; leading zeros do not count.
pub open spec fn digits_value(text: Seq<char>) -> nat
    decreases text.len(),
{
    if text.len() == 0 {
        0
    } else {
        digits_value(text.drop_last()) * 10 + (text.last() as u8 - '0' as u8) as nat
    }
}

/// The `i64` that `text` denotes: an optional sign, then one or more digits, in range.
pub open spec fn i64_of(text: Seq<char>) -> Option<i64> {
    let signed = text.len() > 0 && (text[0] == '+' || text[0] == '-');
    let digits = if signed {
        text.skip(1)
    } else {
        text
    };
    let magnitude = digits_value(digits);
    let value = if signed && text[0] == '-' {
        -magnitude
    } else {
        magnitude as int
    };
    if digits.len() > 0 && all_digits(digits) && i64::MIN <= value <= i64::MAX {
        Some(value as i64)
    } else {
        None
    }
}

/// A whole number as JSON writes it: one or more digits, with a minus sign where it is negative.
pub open spec fn is_whole(text: Seq<char>) -> bool {
    let digits = if text.len() > 0 && text[0] == '-' {
        text.skip(1)
    } else {
        text
    };
    digits.len() > 0 && all_digits(digits)
}

proof fn lemma_digit_char(d: nat)
    requires
        d < 10,
    ensures
        is_digit(digit_char(d)),
        (digit_char(d) as u8 - '0' as u8) as nat == d,
{
}

/// Decimal notation is made of digits and denotes the number; it has no leading zero.
pub proof fn lemma_decimal(n: nat)
    ensures
        decimal(n).len() > 0,
        all_digits(decimal(n)),
        digits_value(decimal(n)) == n,
        decimal(n)[0] == '0' <==> n == 0,
        n == 0 ==> decimal(n).len() == 1,
    decreases n,
{
    lemma_digit_char(n % 10);
    if n < 10 {
        assert(decimal(n).drop_last() =~= Seq::<char>::empty());
        assert(digits_value(Seq::<char>::empty()) == 0);
    } else {
        lemma_decimal(n / 10);
        assert(decimal(n).drop_last() =~= decimal(n / 10));
        assert(decimal(n)[0] == decimal(n / 10)[0]);
    }
}

/// A run of digits without a leading zero is the notation of the number that it denotes.
pub proof fn lemma_digits_are_decimal(text: Seq<char>)
    requires
        text.len() > 0,
        all_digits(text),
        text[0] == '0' ==> text.len() == 1,
    ensures
        decimal(digits_value(text)) == text,
        text.len() > 1 ==> digits_value(text) >= 10,
    decreases text.len(),
{
    let last = (text.last() as u8 - '0' as u8) as nat;
    let init = text.drop_last();
    assert(is_digit(text.last()));
    assert(digit_char(last) == text.last());
    if text.len() == 1 {
        assert(init =~= Seq::<char>::empty());
        assert(digits_value(init) == 0);
        assert(text =~= seq![text.last()]);
    } else {
        assert(init[0] == text[0]);
        assert forall|i: int| 0 <= i < init.len() implies is_digit(#[trigger] init[i]) by {
            assert(init[i] == text[i]);
        }
        lemma_digits_are_decimal(init);
        let v = digits_value(init);
        if init.len() == 1 {
            assert(init.drop_last() =~= Seq::<char>::empty());
            assert(digits_value(init.drop_last()) == 0);
            assert(is_digit(init[0]));
            assert(init.last() == text[0]);
            assert(v >= 1);
        }
        assert(v >= 1);
        assert((v * 10 + last) / 10 == v && (v * 10 + last) % 10 == last);
        assert(text =~= init.push(text.last()));
    }
}

/// Reading the notation of an `i64` gives it back.
pub proof fn law_signed_decimal_reads_back(i: i64)
    ensures
        i64_of(signed_decimal(i as int)) == Some(i),
{
    let text = signed_decimal(i as int);
    if i < 0 {
        lemma_decimal((-i) as nat);
        assert(text[0] == '-');
        assert(text.skip(1) =~= decimal((-i) as nat));
    } else {
        lemma_decimal(i as nat);
        assert(is_digit(text[0]));
    }
}

/// Reads a run of digits, from character `start` to the end. `None` stands for a character that
/// is not a digit, and for a number above `limit`.
pub fn read_digits(chars: &Vec<char>, start: usize, limit: u64) -> (value: Option<u64>)
    requires
        start <= chars@.len(),
    ensures
        match value {
            Some(v) => all_digits(chars@.skip(start as int)) && v == digits_value(
                chars@.skip(start as int),
            ) && v <= limit,
            None => !all_digits(chars@.skip(start as int)) || digits_value(
                chars@.skip(start as int),
            ) > limit,
        },
{
    let ghost run = chars@.skip(start as int);
    let mut value: u64 = 0;
    let mut over: bool = false;
    let mut i: usize = start;
    assert(run.take(0) =~= Seq::<char>::empty());
    while i < chars.len()
        invariant
            start <= i <= chars@.len(),
            run == chars@.skip(start as int),
            all_digits(run.take(i - start)),
            !over ==> value == digits_value(run.take(i - start)) && value <= limit,
            over ==> digits_value(run.take(i - start)) > limit,
        decreases chars@.len() - i,
    {
        let c = chars[i];
        assert(c == run[i - start]);
        if c < '0' || '9' < c {
            return None;
        }
        proof {
            let longer = run.take(i - start + 1);
            assert(longer.drop_last() =~= run.take(i - start));
            assert forall|j: int| 0 <= j < longer.len() implies is_digit(#[trigger] longer[j]) by {
                if j < i - start {
                    assert(longer[j] == run.take(i - start)[j]);
                }
            }
        }
        if !over {
            let next: u128 = value as u128 * 10 + (c as u8 - '0' as u8) as u128;
            if next > limit as u128 {
                over = true;
            } else {
                value = next as u64;
            }
        }
        i = i + 1;
    }
    assert(run.take(i - start) =~= run);
    if over {
        None
    } else {
        Some(value)
    }
}

/// Reads an `i64` in decimal notation.
pub fn parse_i64(text: &str) -> (value: Option<i64>)
    ensures
        value == i64_of(text@),
{
    let chars = chars_of(text);
    if chars.len() == 0 {
        return None;
    }
    let negative = chars[0] == '-';
    let start: usize = if negative || chars[0] == '+' {
        1
    } else {
        0
    };
    assert(chars@.skip(0) =~= chars@);
    if start == chars.len() {
        return None;
    }
    let limit: u64 = if negative {
        0x8000_0000_0000_0000
    } else {
        0x7fff_ffff_ffff_ffff
    };
    match read_digits(&chars, start, limit) {
        None => None,
        Some(magnitude) => {
            if negative {
                if magnitude == 0x8000_0000_0000_0000 {
                    Some(i64::MIN)
                } else {
                    Some(-(magnitude as i64))
                }
            } else {
                Some(magnitude as i64)
            }
        },
    }
}

/// `n` in decimal notation.
pub fn decimal_text(n: u64) -> (text: String)
    ensures
        text@ == decimal(n as nat),
    decreases n,
{
    if n < 10 {
        let mut text = String::new();
        text.push((n as u8 + '0' as u8) as char);
        assert(text@ =~= decimal(n as nat));
        text
    } else {
        let mut text = decimal_text(n / 10);
        text.push(((n % 10) as u8 + '0' as u8) as char);
        text
    }
}

}
