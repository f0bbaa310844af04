//! Laws on wildcards.
use vstd::prelude::*;

use crate::glob::glob;
use crate::glob::iam_glob_match;

verus! {

/// An empty pattern matches the empty text alone; `*` (42) stands for any beginning of the text, `?`
/// (63) for any one byte, and every other byte for itself.
pub proof fn law_pattern_is_read(b: u8, rest: Seq<u8>, text: Seq<u8>)
    ensures
        glob(Seq::empty(), text) <==> text.len() == 0,
        b == 42 ==> (glob(seq![b] + rest, text) <==> exists|k: int|
            0 <= k <= text.len() && glob(rest, #[trigger] text.skip(k))),
        b == 63 ==> (glob(seq![b] + rest, text) <==> text.len() > 0 && glob(rest, text.skip(1))),
        b != 42 && b != 63 ==> (glob(seq![b] + rest, text) <==> text.len() > 0 && text[0] == b
            && glob(rest, text.skip(1))),
{
    let pattern = seq![b] + rest;
    assert(pattern.skip(1) =~= rest);
    assert(pattern[0] == b);
}

/// A pattern without wildcards matches just the text that it is, and `*` matches every text.
pub proof fn law_plain_pattern(pattern: Seq<u8>, text: Seq<u8>)
    ensures
        (forall|i: int| 0 <= i < pattern.len() ==> #[trigger] pattern[i] != 42 && pattern[i] != 63) ==> (
        glob(pattern, text) <==> pattern == text),
        glob(seq![42u8], text),
    decreases pattern.len(),
{
    assert(seq![42u8].skip(1) =~= Seq::<u8>::empty());
    assert(glob(seq![42u8].skip(1), text.skip(text.len() as int)));
    if pattern.len() > 0 {
        let rest = pattern.skip(1);
        if forall|i: int| 0 <= i < pattern.len() ==> #[trigger] pattern[i] != 42 && pattern[i] != 63 {
            assert(pattern[0] != 42 && pattern[0] != 63);
            assert forall|i: int| 0 <= i < rest.len() implies #[trigger] rest[i] != 42 && rest[i]
                != 63 by {
                assert(rest[i] == pattern[i + 1]);
            }
            law_plain_pattern(rest, text.skip(1));
            if glob(pattern, text) {
                assert(text =~= seq![text[0]] + text.skip(1));
                assert(pattern =~= seq![pattern[0]] + rest);
            }
        }
    } else if text.len() == 0 {
        assert(pattern =~= text);
    }
}

/// What the matcher tells is whether the pattern matches: alone, `*` matches everything, and a
/// pattern without wildcards just itself.
pub proof fn law_matcher(pattern: &[u8], text: &[u8], found: bool)
    requires
        call_ensures(iam_glob_match, (pattern, text), found),
    ensures
        found == glob(pattern@, text@),
        pattern@ == seq![42u8] ==> found,
        (forall|i: int|
            0 <= i < pattern@.len() ==> #[trigger] pattern@[i] != 42 && pattern@[i] != 63) ==> (found
            <==> pattern@ == text@),
{
    law_plain_pattern(pattern@, text@);
}

}
