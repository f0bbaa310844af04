//! What all commands share: lines of output.
use vstd::prelude::*;
use vstd::string::*;
use vstd::utf8::char_is_scalar;
use vstd::utf8::encode_scalar;
use vstd::utf8::encode_utf8;
use vstd::utf8::has_width_1_encoding;
use vstd::utf8::leading_byte_width_1;

use crate::json::Json;
use crate::split::lacks;
use crate::wire::json_text;
use crate::wire::write_json;

verus! {

const NEWLINE: u8 = 0x0a;

/// The newline is not among the bytes.
pub open spec fn one_line(bytes: Seq<u8>) -> bool {
    forall|i: int| 0 <= i < bytes.len() ==> #[trigger] bytes[i] != 0x0a
}

/// The newline is a byte of its own: no other character takes it.
proof fn lemma_newline(c: char)
    requires
        c != '\n',
    ensures
        one_line(encode_scalar(c as u32)),
{
    let s = c as u32;
    char_is_scalar(c);
    let bytes = encode_scalar(s);
    assert(s <= 0x7f && s != 0x0a ==> (s & 0x7F) as u8 != 0x0a) by (bit_vector);
    if has_width_1_encoding(s) {
        assert(bytes =~= seq![leading_byte_width_1(s)]);
    } else {
        assert(0xC0u8 | ((s >> 6) & 0x1F) as u8 != 0x0a) by (bit_vector);
        assert(0xE0u8 | ((s >> 12) & 0x0F) as u8 != 0x0a) by (bit_vector);
        assert(0xF0u8 | ((s >> 18) & 0x07) as u8 != 0x0a) by (bit_vector);
        assert(0x80u8 | (s & 0x3F) as u8 != 0x0a) by (bit_vector);
        assert(0x80u8 | ((s >> 6) & 0x3F) as u8 != 0x0a) by (bit_vector);
        assert(0x80u8 | ((s >> 12) & 0x3F) as u8 != 0x0a) by (bit_vector);
    }
}

/// A text without a newline takes no newline byte.
proof fn lemma_one_line(text: Seq<char>)
    requires
        lacks(text, '\n'),
    ensures
        one_line(encode_utf8(text)),
    decreases text.len(),
{
    if text.len() > 0 {
        assert(text[0] != '\n');
        lemma_newline(text[0]);
        let rest = text.drop_first();
        assert forall|i: int| 0 <= i < rest.len() implies #[trigger] rest[i] != '\n' by {
            assert(rest[i] == text[i + 1]);
        }
        lemma_one_line(rest);
    }
}

/// Adds a JSON value and a newline to the output: one line, whatever the value.
pub fn emit_ndjson_line(w: &mut Vec<u8>, v: &Json) -> (done: Result<(), String>)
    ensures
        done is Ok,
        final(w)@ == old(w)@ + encode_utf8(json_text(v@)) + seq![0x0au8],
        one_line(encode_utf8(json_text(v@))),
{
    let text = write_json(v);
    proof {
        lemma_one_line(text@);
    }
    let bytes = text.as_str().as_bytes();
    let mut i: usize = 0;
    while i < bytes.len()
        invariant
            i <= bytes@.len(),
            w@ == old(w)@ + bytes@.take(i as int),
        decreases bytes@.len() - i,
    {
        w.push(bytes[i]);
        i = i + 1;
    }
    assert(bytes@.take(i as int) =~= bytes@);
    w.push(NEWLINE);
    assert(w@ =~= old(w)@ + encode_utf8(json_text(v@)) + seq![0x0au8]);
    Ok(())
}

}
