//! Percent-encoding of object keys in URL paths.
use vstd::prelude::*;
use vstd::string::*;
use vstd::utf8::encode_utf8;
use vstd::utf8::encode_utf8_decode_utf8;
use vstd::utf8::encode_utf8_valid_utf8;
use vstd::utf8::is_ascii_chars;
use vstd::utf8::is_ascii_chars_encode_utf8;

use crate::bytes::lossy;
use crate::bytes::lossy_string;
use crate::text::is_digit;
use crate::text::is_letter;

verus! {

const PERCENT: u8 = 0x25;

/// A character that stands for itself in a path: an unreserved one, or the slash between segments.
pub open spec fn is_plain(c: char) -> bool {
    is_letter(c) || is_digit(c) || c == '-' || c == '_' || c == '.' || c == '~' || c == '/'
}

/// The digit `d` in hexadecimal notation, for `d` below sixteen.
pub open spec fn hex_char(d: int) -> char {
    if d < 10 {
        (d + '0' as int) as char
    } else {
        (d - 10 + 'A' as int) as char
    }
}

/// The number that a hexadecimal digit denotes, in either case.
pub open spec fn hex_value(b: u8) -> Option<int> {
    if 0x30 <= b <= 0x39 {
        Some(b - 0x30)
    } else if 0x41 <= b <= 0x46 {
        Some(b - 0x41 + 10)
    } else if 0x61 <= b <= 0x66 {
        Some(b - 0x61 + 10)
    } else {
        None
    }
}

/// A byte in a path: itself, or a percent sign and two hexadecimal digits.
pub open spec fn escaped(b: u8) -> Seq<char> {
    if is_plain(b as char) {
        seq![b as char]
    } else {
        seq!['%', hex_char(b as int / 16), hex_char(b as int % 16)]
    }
}

/// Bytes in a path, one behind the other.
pub open spec fn percent_encoded(bytes: Seq<u8>) -> Seq<char>
    decreases bytes.len(),
{
    if bytes.len() == 0 {
        Seq::empty()
    } else {
        escaped(bytes[0]) + percent_encoded(bytes.skip(1))
    }
}

/// The bytes begin with a percent sign and two hexadecimal digits.
pub open spec fn begins_escape(bytes: Seq<u8>) -> bool {
    bytes.len() >= 3 && bytes[0] == 0x25 && hex_value(bytes[1]) is Some && hex_value(
        bytes[2],
    ) is Some
}

/// The bytes that a path stands for. A percent sign without two digits stands for itself.
pub open spec fn percent_decoded(bytes: Seq<u8>) -> Seq<u8>
    decreases bytes.len(),
{
    if bytes.len() == 0 {
        Seq::empty()
    } else if begins_escape(bytes) {
        let value = hex_value(bytes[1]).unwrap() * 16 + hex_value(bytes[2]).unwrap();
        seq![value as u8] + percent_decoded(bytes.skip(3))
    } else {
        seq![bytes[0]] + percent_decoded(bytes.skip(1))
    }
}

/// The key that a path stands for.
pub open spec fn decoded_key(path: Seq<char>) -> Seq<char> {
    lossy(percent_decoded(encode_utf8(path)))
}

/// A path is made of plain characters and percent signs.
pub proof fn law_encoded_is_plain(bytes: Seq<u8>)
    ensures
        forall|i: int|
            0 <= i < percent_encoded(bytes).len() ==> is_plain(#[trigger] percent_encoded(bytes)[i])
                || percent_encoded(bytes)[i] == '%',
    decreases bytes.len(),
{
    if bytes.len() > 0 {
        law_encoded_is_plain(bytes.skip(1));
        let rest = percent_encoded(bytes.skip(1));
        let first = escaped(bytes[0]);
        assert forall|i: int| 0 <= i < percent_encoded(bytes).len() implies is_plain(
            #[trigger] percent_encoded(bytes)[i],
        ) || percent_encoded(bytes)[i] == '%' by {
            if i >= first.len() {
                assert(percent_encoded(bytes)[i] == rest[i - first.len()]);
            }
        }
    }
}

/// The bytes of a path, character by character.
proof fn lemma_encoded_bytes(bytes: Seq<u8>)
    ensures
        encode_utf8(percent_encoded(bytes)).len() == percent_encoded(bytes).len(),
        forall|i: int|
            0 <= i < percent_encoded(bytes).len() ==> #[trigger] encode_utf8(
                percent_encoded(bytes),
            )[i] == percent_encoded(bytes)[i] as u8,
{
    law_encoded_is_plain(bytes);
    let text = percent_encoded(bytes);
    assert forall|i: int| 0 <= i < text.len() implies '\0' <= #[trigger] text[i]
        <= '\u{7f}' by {
        assert(is_plain(text[i]) || text[i] == '%');
    }
    assert(is_ascii_chars(text));
    is_ascii_chars_encode_utf8(text);
}

proof fn lemma_hex(d: int)
    requires
        0 <= d < 16,
    ensures
        hex_value(hex_char(d) as u8) == Some(d),
        is_plain(hex_char(d)),
{
}

/// Decoding undoes encoding, byte for byte.
proof fn lemma_decode_encode(bytes: Seq<u8>)
    ensures
        percent_decoded(encode_utf8(percent_encoded(bytes))) == bytes,
    decreases bytes.len(),
{
    let text = percent_encoded(bytes);
    let path = encode_utf8(text);
    lemma_encoded_bytes(bytes);
    if bytes.len() == 0 {
        assert(percent_decoded(path) =~= bytes);
    } else {
        let b = bytes[0];
        let rest = bytes.skip(1);
        lemma_decode_encode(rest);
        lemma_encoded_bytes(rest);
        lemma_hex(b as int / 16);
        lemma_hex(b as int % 16);
        let n = escaped(b).len() as int;
        assert(text.skip(n) =~= percent_encoded(rest));
        assert(path.skip(n) =~= encode_utf8(percent_encoded(rest))) by {
            assert forall|i: int| 0 <= i < path.len() - n implies #[trigger] path.skip(n)[i]
                == encode_utf8(percent_encoded(rest))[i] by {
                assert(path.skip(n)[i] == path[n + i]);
                assert(text.skip(n)[i] == text[n + i]);
            }
        }
        assert(text[0] == escaped(b)[0]);
        assert(path[0] == text[0] as u8);
        if is_plain(b as char) {
            assert(path[0] == b);
            assert(b != 0x25);
        } else {
            assert(text[1] == escaped(b)[1] && text[2] == escaped(b)[2]);
            assert(path[1] == text[1] as u8 && path[2] == text[2] as u8);
            assert(path[0] == 0x25);
            assert(begins_escape(path));
            assert((b / 16) * 16 + b % 16 == b);
        }
        assert(seq![b] + rest =~= bytes);
    }
}

/// Decoding undoes encoding: every key comes back from its path.
pub proof fn law_decode_undoes_encode(key: Seq<char>)
    ensures
        decoded_key(percent_encoded(encode_utf8(key))) == key,
{
    lemma_decode_encode(encode_utf8(key));
    encode_utf8_valid_utf8(key);
    encode_utf8_decode_utf8(key);
}

/// Whether the byte stands for itself in a path.
fn plain(b: u8) -> (found: bool)
    ensures
        found == is_plain(b as char),
{
    let c = b as char;
    ('a' <= c && c <= 'z') || ('A' <= c && c <= 'Z') || ('0' <= c && c <= '9') || c == '-' || c
        == '_' || c == '.' || c == '~' || c == '/'
}

/// The digit `d` in hexadecimal notation.
fn hex_digit(d: u8) -> (c: char)
    requires
        d < 16,
    ensures
        c == hex_char(d as int),
{
    if d < 10 {
        (d + 0x30) as char
    } else {
        (d - 10 + 0x41) as char
    }
}

/// The number that a hexadecimal digit denotes.
fn digit_of_hex(b: u8) -> (value: Option<u8>)
    ensures
        match value {
            Some(v) => hex_value(b) == Some(v as int) && v < 16,
            None => hex_value(b) is None,
        },
{
    if 0x30 <= b && b <= 0x39 {
        Some(b - 0x30)
    } else if 0x41 <= b && b <= 0x46 {
        Some(b - 0x41 + 10)
    } else if 0x61 <= b && b <= 0x66 {
        Some(b - 0x61 + 10)
    } else {
        None
    }
}

/// Percent-encodes an object key for the path of a URL.
pub fn encode_s3_key(key: &str) -> (path: String)
    ensures
        path@ == percent_encoded(encode_utf8(key@)),
{
    let bytes = key.as_bytes();
    let mut path = String::new();
    let mut i: usize = 0;
    assert(bytes@.skip(0) =~= bytes@);
    while i < bytes.len()
        invariant
            i <= bytes@.len(),
            path@ + percent_encoded(bytes@.skip(i as int)) == percent_encoded(bytes@),
        decreases bytes@.len() - i,
    {
        let b = bytes[i];
        let ghost before = path@;
        let ghost rest = bytes@.skip(i as int);
        assert(rest[0] == b);
        assert(rest.skip(1) =~= bytes@.skip(i + 1));
        if plain(b) {
            path.push(b as char);
        } else {
            path.push('%');
            path.push(hex_digit(b / 16));
            path.push(hex_digit(b % 16));
        }
        assert(path@ =~= before + escaped(b));
        assert(path@ + percent_encoded(rest.skip(1)) =~= before + (escaped(b) + percent_encoded(
            rest.skip(1),
        )));
        i = i + 1;
    }
    assert(path@ =~= path@ + percent_encoded(bytes@.skip(i as int)));
    path
}

/// The bytes that a path stands for.
fn unescape(bytes: &[u8]) -> (out: Vec<u8>)
    ensures
        out@ == percent_decoded(bytes@),
{
    let size = bytes.len();
    let mut out: Vec<u8> = Vec::new();
    let mut i: usize = 0;
    assert(bytes@.skip(0) =~= bytes@);
    while i < size
        invariant
            i <= size,
            size == bytes@.len(),
            out@ + percent_decoded(bytes@.skip(i as int)) == percent_decoded(bytes@),
        decreases size - i,
    {
        let ghost before = out@;
        let ghost rest = bytes@.skip(i as int);
        if bytes[i] == PERCENT && size - i > 2 {
            if let (Some(high), Some(low)) = (
                digit_of_hex(bytes[i + 1]),
                digit_of_hex(bytes[i + 2]),
            ) {
                let value: u8 = high * 16 + low;
                assert(begins_escape(rest));
                out.push(value);
                assert(rest.skip(3) =~= bytes@.skip(i + 3));
                assert(out@ + percent_decoded(rest.skip(3)) =~= before + (seq![value]
                    + percent_decoded(rest.skip(3))));
                i = i + 3;
                continue ;
            }
        }
        assert(!begins_escape(rest));
        let b = bytes[i];
        out.push(b);
        assert(rest.skip(1) =~= bytes@.skip(i + 1));
        assert(out@ + percent_decoded(rest.skip(1)) =~= before + (seq![b] + percent_decoded(
            rest.skip(1),
        )));
        i = i + 1;
    }
    assert(out@ =~= out@ + percent_decoded(bytes@.skip(i as int)));
    out
}

/// The object key that the path of a URL stands for.
pub fn decode_s3_key(path: &str) -> (key: String)
    ensures
        key@ == decoded_key(path@),
{
    let bytes = unescape(path.as_bytes());
    lossy_string(&bytes)
}

}
