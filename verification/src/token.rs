//! Splitting a line into tokens.
//!
//! A token is a maximal run of characters that are not whitespace. Tokens are
//! found by their place in the line, so that splitting copies nothing.

use crate::text::{is_whitespace, whitespace};
use vstd::prelude::*;

verus! {

/// The place of a token in a line: the characters from `start` up to, but not
/// including, `end`.
#[derive(Clone, Copy, Debug, PartialEq, Eq, Structural)]
pub struct Span {
    pub start: usize,
    pub end: usize,
}

/// The length of the longest prefix of `s` that holds no whitespace.
pub open spec fn word_len(s: Seq<char>) -> nat
    decreases s.len(),
{
    if s.len() == 0 || is_whitespace(s[0]) {
        0
    } else {
        1 + word_len(s.drop_first())
    }
}

/// The tokens of `s`, first to last: leading whitespace is passed over, the
/// longest run without whitespace is a token, and so on with what follows it.
pub open spec fn split(s: Seq<char>) -> Seq<Seq<char>>
    decreases s.len(),
    via split_decreases
{
    if s.len() == 0 {
        Seq::empty()
    } else if is_whitespace(s[0]) {
        split(s.drop_first())
    } else {
        seq![s.take(word_len(s) as int)] + split(s.skip(word_len(s) as int))
    }
}

#[via_fn]
proof fn split_decreases(s: Seq<char>) {
    if s.len() > 0 && !is_whitespace(s[0]) {
        lemma_word_len_bound(s);
    }
}

/// Whether the characters of `s` from `a` up to `b` are a maximal run without
/// whitespace: none of them is whitespace, and the run cannot be extended on
/// either side.
pub open spec fn is_word(s: Seq<char>, a: int, b: int) -> bool {
    &&& 0 <= a < b <= s.len()
    &&& forall|k: int| a <= k < b ==> !is_whitespace(#[trigger] s[k])
    &&& a == 0 || is_whitespace(s[a - 1])
    &&& b == s.len() || is_whitespace(s[b])
}

/// The text that each of `spans` marks in `s`.
pub open spec fn texts(s: Seq<char>, spans: Seq<Span>) -> Seq<Seq<char>> {
    Seq::new(spans.len(), |k: int| s.subrange(spans[k].start as int, spans[k].end as int))
}

/// Whether `spans` are the tokens of `s`: each marks a maximal run without
/// whitespace, they follow one another from left to right, and the runs they
/// mark are `split(s)`.
pub open spec fn marks_tokens(s: Seq<char>, spans: Seq<Span>) -> bool {
    &&& forall|k: int| 0 <= k < spans.len() ==> is_word(s, (#[trigger] spans[k]).start as int, spans[k].end as int)
    &&& forall|k: int, l: int| 0 <= k < l < spans.len() ==> (#[trigger] spans[k]).end < (#[trigger] spans[l]).start
    &&& texts(s, spans) == split(s)
}

/// A run without whitespace is no longer than what holds it.
pub proof fn lemma_word_len_bound(s: Seq<char>)
    ensures
        word_len(s) <= s.len(),
        s.len() > 0 && !is_whitespace(s[0]) ==> word_len(s) >= 1,
    decreases s.len(),
{
    if s.len() > 0 && !is_whitespace(s[0]) {
        lemma_word_len_bound(s.drop_first());
    }
}

/// `word_len(s)` is the place of the first whitespace in `s`, or the length
/// of `s` where it holds none.
pub proof fn lemma_word_len_is(s: Seq<char>, m: int)
    requires
        0 <= m <= s.len(),
        forall|k: int| 0 <= k < m ==> !is_whitespace(#[trigger] s[k]),
        m == s.len() || is_whitespace(s[m]),
    ensures
        word_len(s) == m,
    decreases m,
{
    if m > 0 {
        let rest = s.drop_first();
        assert forall|k: int| 0 <= k < m - 1 implies !is_whitespace(#[trigger] rest[k]) by {
            assert(rest[k] == s[k + 1]);
        }
        lemma_word_len_is(rest, m - 1);
    }
}

/// Every token is a non-empty run without whitespace.
pub proof fn lemma_tokens_are_words(s: Seq<char>)
    ensures
        forall|i: int, k: int|
            0 <= i < split(s).len() && 0 <= k < split(s)[i].len() ==> !is_whitespace(
                #[trigger] split(s)[i][k],
            ),
        forall|i: int| 0 <= i < split(s).len() ==> (#[trigger] split(s)[i]).len() > 0,
    decreases s.len(),
{
    if s.len() == 0 {
        assert(split(s).len() == 0);
    } else if is_whitespace(s[0]) {
        lemma_tokens_are_words(s.drop_first());
        assert(split(s) == split(s.drop_first()));
    } else {
        let n = word_len(s) as int;
        lemma_word_len_bound(s);
        lemma_word_is_clean(s);
        lemma_tokens_are_words(s.skip(n));
        let rest = split(s.skip(n));
        assert forall|i: int, k: int|
            0 <= i < split(s).len() && 0 <= k < split(s)[i].len() implies !is_whitespace(
            #[trigger] split(s)[i][k],
        ) by {
            if i > 0 {
                assert(split(s)[i] == rest[i - 1]);
            }
        }
        assert forall|i: int| 0 <= i < split(s).len() implies (#[trigger] split(s)[i]).len()
            > 0 by {
            if i > 0 {
                assert(split(s)[i] == rest[i - 1]);
            }
        }
    }
}

/// The first `word_len(s)` characters of `s` hold no whitespace.
pub proof fn lemma_word_is_clean(s: Seq<char>)
    ensures
        forall|k: int| 0 <= k < word_len(s) ==> !is_whitespace(#[trigger] s[k]),
    decreases s.len(),
{
    if s.len() > 0 && !is_whitespace(s[0]) {
        let rest = s.drop_first();
        lemma_word_len_bound(s);
        lemma_word_is_clean(rest);
        assert forall|k: int| 0 <= k < word_len(s) implies !is_whitespace(#[trigger] s[k]) by {
            if k > 0 {
                assert(s[k] == rest[k - 1]);
            }
        }
    }
}

/// A line has no tokens exactly when it is empty or all whitespace.
pub proof fn lemma_no_tokens(s: Seq<char>)
    ensures
        split(s).len() == 0 <==> forall|k: int| 0 <= k < s.len() ==> is_whitespace(#[trigger] s[k]),
    decreases s.len(),
{
    if s.len() == 0 {
    } else if is_whitespace(s[0]) {
        let rest = s.drop_first();
        lemma_no_tokens(rest);
        if split(s).len() == 0 {
            assert forall|k: int| 0 <= k < s.len() implies is_whitespace(#[trigger] s[k]) by {
                if k > 0 {
                    assert(s[k] == rest[k - 1]);
                }
            }
        } else {
            let k = choose|k: int| 0 <= k < rest.len() && !is_whitespace(#[trigger] rest[k]);
            assert(s[k + 1] == rest[k]);
        }
    } else {
        assert(!is_whitespace(s[0]));
    }
}

/// There are no more tokens than characters.
pub proof fn lemma_split_len(s: Seq<char>)
    ensures
        split(s).len() <= s.len(),
    decreases s.len(),
{
    if s.len() == 0 {
    } else if is_whitespace(s[0]) {
        lemma_split_len(s.drop_first());
    } else {
        lemma_word_len_bound(s);
        lemma_split_len(s.skip(word_len(s) as int));
    }
}

/// Finds the tokens of a line.
pub fn tokenize(chars: &[char]) -> (spans: Vec<Span>)
    ensures
        marks_tokens(chars@, spans@),
{
    let n = chars.len();
    let mut spans: Vec<Span> = Vec::new();
    let mut i: usize = 0;
    assert(chars@.skip(0) =~= chars@);
    assert(texts(chars@, spans@) + split(chars@) =~= split(chars@));
    while i < n
        invariant
            i <= n,
            n == chars@.len(),
            forall|k: int|
                0 <= k < spans@.len() ==> is_word(
                    chars@,
                    (#[trigger] spans@[k]).start as int,
                    spans@[k].end as int,
                ),
            forall|k: int| 0 <= k < spans@.len() ==> (#[trigger] spans@[k]).end <= i,
            forall|k: int, l: int|
                0 <= k < l < spans@.len() ==> (#[trigger] spans@[k]).end < (
                #[trigger] spans@[l]).start,
            i > 0 && i < n && !is_whitespace(chars@[i as int]) ==> is_whitespace(
                chars@[i - 1],
            ),
            split(chars@) == texts(chars@, spans@) + split(chars@.skip(i as int)),
        decreases n - i,
    {
        if whitespace(chars[i]) {
            assert(chars@.skip(i as int).drop_first() =~= chars@.skip(i + 1));
            i += 1;
        } else {
            let start = i;
            let mut j = i + 1;
            while j < n && !whitespace(chars[j])
                invariant
                    start < j <= n,
                    n == chars@.len(),
                    forall|k: int| start <= k < j ==> !is_whitespace(#[trigger] chars@[k]),
                decreases n - j,
            {
                j += 1;
            }
            let span = Span { start, end: j };
            proof {
                let tail = chars@.skip(start as int);
                let m = j - start;
                assert forall|k: int| 0 <= k < m implies !is_whitespace(#[trigger] tail[k]) by {
                    assert(tail[k] == chars@[start + k]);
                }
                lemma_word_len_is(tail, m);
                assert(tail.take(m) =~= chars@.subrange(start as int, j as int));
                assert(tail.skip(m) =~= chars@.skip(j as int));
                assert(texts(chars@, spans@.push(span)) =~= texts(chars@, spans@).push(
                    chars@.subrange(start as int, j as int),
                ));
                assert(texts(chars@, spans@) + (seq![tail.take(m)] + split(tail.skip(m)))
                    =~= texts(chars@, spans@).push(tail.take(m)) + split(tail.skip(m)));
                assert forall|k: int| 0 <= k < spans@.len() implies (#[trigger] spans@[k]).end
                    < start by {
                    let e = spans@[k].end as int;
                    if e == start {
                        assert(is_word(chars@, spans@[k].start as int, e));
                    }
                }
            }
            spans.push(span);
            i = j;
        }
    }
    assert(chars@.skip(n as int) =~= Seq::<char>::empty());
    assert(texts(chars@, spans@) + Seq::<Seq<char>>::empty() =~= texts(chars@, spans@));
    spans
}

} // verus!
