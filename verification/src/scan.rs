//! Looking through text character by character.

use vstd::prelude::*;

verus! {

/// Where `a` or `b` first occurs in `s`, or the length of `s` if neither does.
pub open spec fn first_of(s: Seq<char>, a: char, b: char) -> int
    decreases s.len(),
{
    if s.len() == 0 {
        0
    } else if s[0] == a || s[0] == b {
        0
    } else {
        1 + first_of(s.drop_first(), a, b)
    }
}

/// Whether neither `a` nor `b` occurs in `s`.
pub open spec fn free_of(s: Seq<char>, a: char, b: char) -> bool {
    forall|i: int| 0 <= i < s.len() ==> #[trigger] s[i] != a && s[i] != b
}

/// `first_of` lies within the text.
pub proof fn lemma_first_of_bounds(s: Seq<char>, a: char, b: char)
    ensures
        0 <= first_of(s, a, b) <= s.len(),
    decreases s.len(),
{
    if s.len() > 0 && s[0] != a && s[0] != b {
        lemma_first_of_bounds(s.drop_first(), a, b);
    }
}

/// `first_of` is the one position that holds `a` or `b` (or is the end) with
/// neither of them before it.
pub proof fn lemma_first_of_is(s: Seq<char>, a: char, b: char, k: int)
    requires
        0 <= k <= s.len(),
        free_of(s.take(k), a, b),
        k < s.len() ==> s[k] == a || s[k] == b,
    ensures
        first_of(s, a, b) == k,
    decreases k,
{
    if k > 0 {
        assert(s.take(k)[0] == s[0]);
        let rest = s.drop_first();
        assert forall|i: int| 0 <= i < k - 1 implies #[trigger] rest.take(k - 1)[i] != a
            && rest.take(k - 1)[i] != b by {
            assert(rest.take(k - 1)[i] == s.take(k)[i + 1]);
        }
        lemma_first_of_is(rest, a, b, k - 1);
    }
}

/// Nothing before `first_of` is `a` or `b`, and what stands there is one of
/// them unless the text has ended.
pub proof fn lemma_first_of_found(s: Seq<char>, a: char, b: char)
    ensures
        free_of(s.take(first_of(s, a, b)), a, b),
        first_of(s, a, b) < s.len() ==> s[first_of(s, a, b)] == a || s[first_of(s, a, b)] == b,
    decreases s.len(),
{
    lemma_first_of_bounds(s, a, b);
    if s.len() > 0 && s[0] != a && s[0] != b {
        let rest = s.drop_first();
        lemma_first_of_found(rest, a, b);
        lemma_first_of_bounds(rest, a, b);
        let k = first_of(rest, a, b);
        assert forall|i: int| 0 <= i < k + 1 implies #[trigger] s.take(k + 1)[i] != a && s.take(
            k + 1,
        )[i] != b by {
            if i > 0 {
                assert(s.take(k + 1)[i] == rest.take(k)[i - 1]);
            }
        }
    }
}

/// The characters of `s`, one by one.
pub fn decode(s: &str) -> (chars: Vec<char>)
    ensures
        chars@ == s@,
{
    let mut chars: Vec<char> = Vec::new();
    for c in it: s.chars()
        invariant
            chars@ == it.seq().take(it.index()),
            it.seq() == s@,
    {
        chars.push(c);
    }
    chars
}

/// Searches `text[from..to]` for the first `a` or `b`.
///
/// Returns its position in `text`, or `to` if the stretch holds neither.
pub fn find_either(text: &Vec<char>, from: usize, to: usize, a: char, b: char) -> (at: usize)
    requires
        from <= to <= text.len(),
    ensures
        from <= at <= to,
        at - from == first_of(text@.subrange(from as int, to as int), a, b),
{
    let ghost stretch = text@.subrange(from as int, to as int);
    let mut at: usize = from;
    while at < to && text[at] != a && text[at] != b
        invariant
            from <= at <= to <= text.len(),
            stretch == text@.subrange(from as int, to as int),
            free_of(stretch.take(at - from), a, b),
        decreases to - at,
    {
        assert forall|i: int| 0 <= i < at - from + 1 implies #[trigger] stretch.take(
            at - from + 1,
        )[i] != a && stretch.take(at - from + 1)[i] != b by {
            if i < at - from {
                assert(stretch.take(at - from + 1)[i] == stretch.take(at - from)[i]);
            }
        }
        at += 1;
    }
    proof {
        lemma_first_of_is(stretch, a, b, at - from);
    }
    at
}

} // verus!
