//! Splitting text into words at white space.

use vstd::prelude::*;
use vstd::slice::slice_subrange;

verus! {

/// `c` has the Unicode property `White_Space`.
pub open spec fn is_space(c: char) -> bool {
    let n = c as u32;
    ||| 0x09 <= n <= 0x0D
    ||| n == 0x20
    ||| n == 0x85
    ||| n == 0xA0
    ||| n == 0x1680
    ||| 0x2000 <= n <= 0x200A
    ||| n == 0x2028
    ||| n == 0x2029
    ||| n == 0x202F
    ||| n == 0x205F
    ||| n == 0x3000
}

/// The index of the first white-space character at or after `from`, or the
/// length of `s` where none follows.
pub open spec fn word_end(s: Seq<char>, from: int) -> int
    decreases s.len() - from,
{
    if 0 <= from < s.len() && !is_space(s[from]) {
        word_end(s, from + 1)
    } else {
        from
    }
}

/// The words of `s` that start at or after `from`, in order. A word is a
/// longest run of characters that are not white space.
pub open spec fn words_from(s: Seq<char>, from: int) -> Seq<Seq<char>>
    decreases s.len() - from,
{
    if from < 0 || from >= s.len() {
        Seq::empty()
    } else if is_space(s[from]) {
        words_from(s, from + 1)
    } else {
        let end = word_end(s, from);
        if from < end <= s.len() {
            seq![s.subrange(from, end)] + words_from(s, end)
        } else {
            Seq::empty()
        }
    }
}

/// The words of `s`, in order. White space separates words and belongs to
/// none; a text of white space only has no words.
pub open spec fn words(s: Seq<char>) -> Seq<Seq<char>> {
    words_from(s, 0)
}

/// The texts that the index pairs of `spans` cut out of `s`.
pub open spec fn cut(s: Seq<char>, spans: Seq<(usize, usize)>) -> Seq<Seq<char>> {
    Seq::new(spans.len(), |k: int| s.subrange(spans[k].0 as int, spans[k].1 as int))
}

/// A word that starts at `from` ends after `from` and within the text.
pub proof fn lemma_word_end_bounds(s: Seq<char>, from: int)
    requires
        0 <= from <= s.len(),
    ensures
        from <= word_end(s, from) <= s.len(),
        from < s.len() && !is_space(s[from]) ==> from < word_end(s, from),
    decreases s.len() - from,
{
    if from < s.len() && !is_space(s[from]) {
        lemma_word_end_bounds(s, from + 1);
    }
}

/// A word ends where `word_end` says, and nowhere else.
pub proof fn lemma_word_end(s: Seq<char>, from: int, end: int)
    requires
        0 <= from <= end <= s.len(),
        forall|i: int| from <= i < end ==> !is_space(#[trigger] s[i]),
        end == s.len() || is_space(s[end]),
    ensures
        word_end(s, from) == end,
    decreases end - from,
{
    if from < end {
        assert(!is_space(s[from]));
        lemma_word_end(s, from + 1, end);
    }
}

/// Whether `c` is white space.
pub fn is_space_char(c: char) -> (r: bool)
    ensures
        r == is_space(c),
{
    let n: u32 = c as u32;
    (0x09 <= n && n <= 0x0D) || n == 0x20 || n == 0x85 || n == 0xA0 || n == 0x1680 || (0x2000 <= n
        && n <= 0x200A) || n == 0x2028 || n == 0x2029 || n == 0x202F || n == 0x205F || n == 0x3000
}

/// Where the words of `s` lie: for each word, in order, the index of its
/// first character and the index after its last.
pub fn split_words(s: &[char]) -> (spans: Vec<(usize, usize)>)
    ensures
        cut(s@, spans@) == words(s@),
        forall|k: int| 0 <= k < spans@.len() ==> (#[trigger] spans@[k]).0 <= spans@[k].1 <= s@.len(),
{
    let mut spans: Vec<(usize, usize)> = Vec::new();
    let mut pos: usize = 0;
    let n = s.len();
    assert(cut(s@, spans@) + words_from(s@, 0) =~= words(s@));
    while pos < n
        invariant
            n == s@.len(),
            pos <= n,
            cut(s@, spans@) + words_from(s@, pos as int) == words(s@),
            forall|k: int|
                0 <= k < spans@.len() ==> (#[trigger] spans@[k]).0 <= spans@[k].1 <= s@.len(),
        decreases n - pos,
    {
        if is_space_char(s[pos]) {
            pos = pos + 1;
        } else {
            let start = pos;
            while pos < n && !is_space_char(s[pos])
                invariant
                    n == s@.len(),
                    start <= pos <= n,
                    forall|i: int| start <= i < pos ==> !is_space(#[trigger] s@[i]),
                decreases n - pos,
            {
                pos = pos + 1;
            }
            proof {
                lemma_word_end(s@, start as int, pos as int);
                let before = spans@;
                let after = before.push((start, pos));
                assert(cut(s@, after) =~= cut(s@, before) + seq![
                    s@.subrange(start as int, pos as int),
                ]);
                assert(cut(s@, after) + words_from(s@, pos as int) =~= cut(s@, before) + (seq![
                    s@.subrange(start as int, pos as int),
                ] + words_from(s@, pos as int)));
            }
            spans.push((start, pos));
        }
    }
    assert(cut(s@, spans@) + words_from(s@, pos as int) =~= cut(s@, spans@));
    spans
}

/// The part of `s` that a span of `split_words` names.
pub fn word_at<'a>(s: &'a [char], span: (usize, usize)) -> (w: &'a [char])
    requires
        span.0 <= span.1 <= s@.len(),
    ensures
        w@ == s@.subrange(span.0 as int, span.1 as int),
{
    slice_subrange(s, span.0, span.1)
}

} // verus!
