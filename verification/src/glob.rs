//! Wildcard matching as IAM does it on the resources of a policy.
use vstd::prelude::*;

verus! {

/// The byte of `*`.
pub const STAR: u8 = 0x2a;

/// The byte of `?`.
pub const ANY_ONE: u8 = 0x3f;

/// `text` as a whole matches `pattern`: `*` stands for any run of bytes, the empty one too, `?`
/// for exactly one byte, and any other byte for itself.
pub open spec fn glob(pattern: Seq<u8>, text: Seq<u8>) -> bool
    decreases pattern.len(),
{
    if pattern.len() == 0 {
        text.len() == 0
    } else if pattern[0] == STAR {
        exists|k: int| 0 <= k <= text.len() && glob(pattern.skip(1), #[trigger] text.skip(k))
    } else {
        &&& text.len() > 0
        &&& pattern[0] == ANY_ONE || pattern[0] == text[0]
        &&& glob(pattern.skip(1), text.skip(1))
    }
}

/// `pattern[from..to]` has no `*` and matches `text[at..]` byte by byte.
spec fn fits(pattern: Seq<u8>, from: int, to: int, text: Seq<u8>, at: int) -> bool {
    &&& at + (to - from) <= text.len()
    &&& forall|j: int|
        from <= j < to ==> pattern[j] == ANY_ONE || #[trigger] pattern[j] == text[at + (j - from)]
}

/// No `*` stands in `pattern[from..to]`.
spec fn plain(pattern: Seq<u8>, from: int, to: int) -> bool {
    forall|j: int| from <= j < to ==> #[trigger] pattern[j] != STAR
}

/// A stretch of pattern without `*` takes as many bytes of text as it has.
proof fn lemma_plain_stretch(pattern: Seq<u8>, from: int, to: int, text: Seq<u8>, at: int)
    requires
        0 <= from <= to <= pattern.len(),
        0 <= at <= text.len(),
        plain(pattern, from, to),
    ensures
        glob(pattern.skip(from), text.skip(at)) <==> fits(pattern, from, to, text, at) && glob(
            pattern.skip(to),
            text.skip(at + (to - from)),
        ),
    decreases to - from,
{
    if from < to {
        let p = pattern.skip(from);
        let t = text.skip(at);
        assert(p[0] == pattern[from]);
        assert(p.skip(1) =~= pattern.skip(from + 1));
        if at < text.len() {
            assert(t[0] == text[at]);
            assert(t.skip(1) =~= text.skip(at + 1));
            lemma_plain_stretch(pattern, from + 1, to, text, at + 1);
            if fits(pattern, from, to, text, at) {
                assert(pattern[from] == ANY_ONE || pattern[from] == text[at]);
                assert(fits(pattern, from + 1, to, text, at + 1)) by {
                    assert forall|j: int| from + 1 <= j < to implies pattern[j] == ANY_ONE
                        || #[trigger] pattern[j] == text[at + 1 + (j - (from + 1))] by {
                        assert(at + 1 + (j - (from + 1)) == at + (j - from));
                    }
                }
            }
            if fits(pattern, from + 1, to, text, at + 1) && (pattern[from] == ANY_ONE || pattern[from]
                == text[at]) {
                assert(fits(pattern, from, to, text, at)) by {
                    assert forall|j: int| from <= j < to implies pattern[j] == ANY_ONE
                        || #[trigger] pattern[j] == text[at + (j - from)] by {
                        if j > from {
                            assert(at + 1 + (j - (from + 1)) == at + (j - from));
                        }
                    }
                }
            }
        }
    }
}

/// A `*` at `star` lets the rest of the pattern begin anywhere from `at` on.
proof fn lemma_star(pattern: Seq<u8>, star: int, text: Seq<u8>, at: int)
    requires
        0 <= star < pattern.len(),
        pattern[star] == STAR,
        0 <= at <= text.len(),
    ensures
        glob(pattern.skip(star), text.skip(at)) <==> tail_from(pattern, star + 1, text, at),
{
    let p = pattern.skip(star);
    let t = text.skip(at);
    assert(p[0] == STAR);
    assert(p.skip(1) =~= pattern.skip(star + 1));
    if glob(p, t) {
        let k = choose|k: int| 0 <= k <= t.len() && glob(p.skip(1), #[trigger] t.skip(k));
        assert(t.skip(k) =~= text.skip(at + k));
        assert(glob(pattern.skip(star + 1), text.skip(at + k)));
    }
    if tail_from(pattern, star + 1, text, at) {
        let k = choose|k: int|
            at <= k <= text.len() && glob(pattern.skip(star + 1), #[trigger] text.skip(k));
        assert(t.skip(k - at) =~= text.skip(k));
        assert(glob(p.skip(1), t.skip(k - at)));
    }
}

/// `pattern[from..]` matches the text from some place at or behind `at` to its end.
spec fn tail_from(pattern: Seq<u8>, from: int, text: Seq<u8>, at: int) -> bool {
    exists|k: int| at <= k <= text.len() && glob(pattern.skip(from), #[trigger] text.skip(k))
}

/// Whether `text` matches the IAM `pattern`. The last `*` seen takes one byte more each time
/// that what follows it does not match.
pub fn iam_glob_match(pattern: &[u8], text: &[u8]) -> (matches: bool)
    ensures
        matches == glob(pattern@, text@),
{
    let mut p: usize = 0;
    let mut t: usize = 0;
    let mut star: Option<usize> = None;
    let mut star_t: usize = 0;
    proof {
        assert(pattern@.skip(0) =~= pattern@);
        assert(text@.skip(0) =~= text@);
    }
    while t < text.len()
        invariant
            p <= pattern@.len(),
            star_t <= t <= text@.len(),
            star is None ==> {
                &&& star_t == 0
                &&& p == t
                &&& plain(pattern@, 0, p as int)
                &&& fits(pattern@, 0, p as int, text@, 0)
                &&& glob(pattern@, text@) <==> glob(pattern@.skip(p as int), text@.skip(t as int))
            },
            star matches Some(sp) ==> {
                &&& sp < p
                &&& t - star_t == p - (sp + 1)
                &&& plain(pattern@, sp + 1, p as int)
                &&& fits(pattern@, sp + 1, p as int, text@, star_t as int)
                &&& glob(pattern@, text@) <==> tail_from(pattern@, sp + 1, text@, star_t as int)
            },
        decreases text@.len() - star_t, text@.len() - t, pattern@.len() - p,
    {
        if p < pattern.len() && pattern[p] == STAR {
            proof {
                lemma_star(pattern@, p as int, text@, t as int);
                if let Some(sp) = star {
                    lemma_newer_star(pattern@, sp as int, p as int, text@, star_t as int);
                }
            }
            star = Some(p);
            star_t = t;
            p = p + 1;
        } else if p < pattern.len() && (pattern[p] == ANY_ONE || pattern[p] == text[t]) {
            proof {
                assert(pattern@.skip(p as int).skip(1) =~= pattern@.skip(p + 1));
                assert(text@.skip(t as int).skip(1) =~= text@.skip(t + 1));
            }
            p = p + 1;
            t = t + 1;
        } else if let Some(sp) = star {
            proof {
                lemma_plain_stretch(pattern@, sp + 1, p as int, text@, star_t as int);
                assert(!glob(pattern@.skip(p as int), text@.skip(t as int)));
                assert(!glob(pattern@.skip(sp + 1), text@.skip(star_t as int)));
                if tail_from(pattern@, sp + 1, text@, star_t as int) {
                    let k = choose|k: int|
                        star_t <= k <= text@.len() && glob(
                            pattern@.skip(sp + 1),
                            #[trigger] text@.skip(k),
                        );
                    assert(k != star_t);
                    assert(tail_from(pattern@, sp + 1, text@, star_t + 1));
                }
            }
            p = sp + 1;
            star_t = star_t + 1;
            t = star_t;
        } else {
            return false;
        }
    }
    proof {
        if let Some(sp) = star {
            lemma_text_used_up(pattern@, sp as int, p as int, text@, star_t as int);
        }
    }
    while p < pattern.len() && pattern[p] == STAR
        invariant
            p <= pattern@.len(),
            t == text@.len(),
            glob(pattern@, text@) <==> glob(pattern@.skip(p as int), text@.skip(t as int)),
        decreases pattern@.len() - p,
    {
        proof {
            lemma_star(pattern@, p as int, text@, t as int);
            if tail_from(pattern@, p + 1, text@, t as int) {
                let k = choose|k: int|
                    t <= k <= text@.len() && glob(pattern@.skip(p + 1), #[trigger] text@.skip(k));
                assert(k == t);
            }
        }
        p = p + 1;
    }
    p == pattern.len()
}

/// Once a later `*` is reached, what the earlier one took need not be reconsidered.
proof fn lemma_newer_star(pattern: Seq<u8>, old_star: int, star: int, text: Seq<u8>, at: int)
    requires
        0 <= old_star < star < pattern.len(),
        pattern[star] == STAR,
        plain(pattern, old_star + 1, star),
        0 <= at <= text.len(),
        fits(pattern, old_star + 1, star, text, at),
    ensures
        tail_from(pattern, old_star + 1, text, at) <==> tail_from(
            pattern,
            star + 1,
            text,
            at + (star - (old_star + 1)),
        ),
{
    let len = star - (old_star + 1);
    if tail_from(pattern, old_star + 1, text, at) {
        let k = choose|k: int|
            at <= k <= text.len() && glob(pattern.skip(old_star + 1), #[trigger] text.skip(k));
        lemma_plain_stretch(pattern, old_star + 1, star, text, k);
        lemma_star(pattern, star, text, k + len);
        let m = choose|m: int|
            k + len <= m <= text.len() && glob(pattern.skip(star + 1), #[trigger] text.skip(m));
        assert(glob(pattern.skip(star + 1), text.skip(m)));
    }
    if tail_from(pattern, star + 1, text, at + len) {
        lemma_star(pattern, star, text, at + len);
        lemma_plain_stretch(pattern, old_star + 1, star, text, at);
        assert(glob(pattern.skip(old_star + 1), text.skip(at)));
    }
}

/// With the text used up, only the place tried last is left for the part behind the `*`.
proof fn lemma_text_used_up(pattern: Seq<u8>, star: int, p: int, text: Seq<u8>, at: int)
    requires
        0 <= star < p <= pattern.len(),
        plain(pattern, star + 1, p),
        0 <= at,
        at + (p - (star + 1)) == text.len(),
        fits(pattern, star + 1, p, text, at),
    ensures
        tail_from(pattern, star + 1, text, at) <==> glob(
            pattern.skip(p),
            text.skip(text.len() as int),
        ),
{
    lemma_plain_stretch(pattern, star + 1, p, text, at);
    if tail_from(pattern, star + 1, text, at) {
        let k = choose|k: int|
            at <= k <= text.len() && glob(pattern.skip(star + 1), #[trigger] text.skip(k));
        lemma_plain_stretch(pattern, star + 1, p, text, k);
        assert(k == at);
    }
    if glob(pattern.skip(p), text.skip(text.len() as int)) {
        assert(glob(pattern.skip(star + 1), text.skip(at)));
    }
}

/// A pattern without wildcards matches itself and nothing else.
pub proof fn law_literal_pattern(pattern: Seq<u8>, text: Seq<u8>)
    requires
        forall|i: int| 0 <= i < pattern.len() ==> pattern[i] != STAR && pattern[i] != ANY_ONE,
    ensures
        glob(pattern, text) <==> pattern == text,
{
    let n = pattern.len() as int;
    assert(pattern.skip(0) =~= pattern);
    assert(text.skip(0) =~= text);
    assert(pattern.skip(n).len() == 0);
    lemma_plain_stretch(pattern, 0, n, text, 0);
    if glob(pattern, text) {
        assert(text.skip(n).len() == 0);
        assert forall|i: int| 0 <= i < n implies pattern[i] == text[i] by {
            assert(pattern[i] == text[0 + (i - 0)]);
        }
        assert(pattern =~= text);
    }
}

/// A pattern that ends in `*` matches every text that begins with a match of what stands before
/// it: `arn:aws:s3:::bucket/*` matches every object key.
pub proof fn law_trailing_star(head: Seq<u8>, text: Seq<u8>, more: Seq<u8>)
    requires
        glob(head, text),
    ensures
        glob(head.push(STAR), text + more),
    decreases head.len(),
{
    let p = head.push(STAR);
    let whole = text + more;
    if head.len() == 0 {
        assert(p[0] == STAR);
        assert(p.skip(1) =~= Seq::<u8>::empty());
        let k = whole.len() as int;
        assert(whole.skip(k) =~= Seq::<u8>::empty());
        assert(glob(p.skip(1), whole.skip(k)));
    } else {
        assert(p[0] == head[0]);
        assert(p.skip(1) =~= head.skip(1).push(STAR));
        if head[0] == STAR {
            let k = choose|k: int| 0 <= k <= text.len() && glob(head.skip(1), #[trigger] text.skip(k));
            law_trailing_star(head.skip(1), text.skip(k), more);
            assert(text.skip(k) + more =~= whole.skip(k));
            assert(glob(p.skip(1), whole.skip(k)));
        } else {
            law_trailing_star(head.skip(1), text.skip(1), more);
            assert(text.skip(1) + more =~= whole.skip(1));
        }
    }
}

/// `?` matches exactly one byte, whichever it is.
pub proof fn law_question_mark(text: Seq<u8>)
    ensures
        glob(seq![ANY_ONE], text) <==> text.len() == 1,
{
    reveal_with_fuel(glob, 2);
    let p = seq![ANY_ONE];
    assert(p.skip(1) =~= Seq::<u8>::empty());
}

}
