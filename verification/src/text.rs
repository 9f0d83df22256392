//! Character-level vocabulary: whitespace, separators and tokens.
//!
//! Every contract in this crate that speaks of text does so over `Seq<char>`,
//! the view of `str` and `String`. The executable functions here work on a
//! string's characters held in a slice.

use vstd::prelude::*;
use vstd::slice::*;
use vstd::string::*;

verus! {

/// Whether `c` carries the Unicode property `White_Space`.
pub open spec fn is_whitespace(c: char) -> bool {
    let n = c as u32;
    ||| 0x09 <= n <= 0x0D
    ||| n == 0x20
    ||| n == 0x85
    ||| n == 0xA0
    ||| n == 0x1680
    ||| 0x2000 <= n <= 0x200A
    ||| n == 0x2028
    ||| n == 0x2029
    ||| n == 0x202F
    ||| n == 0x205F
    ||| n == 0x3000
}

/// The least position at or after `from` whose character is whitespace
/// (for `whitespace == true`) or is not (for `false`); `s.len()` where no
/// such position is left.
pub open spec fn scan(s: Seq<char>, from: int, whitespace: bool) -> int
    decreases s.len() - from,
{
    if from < 0 || from >= s.len() {
        s.len() as int
    } else if is_whitespace(s[from]) == whitespace {
        from
    } else {
        scan(s, from + 1, whitespace)
    }
}

/// The first whitespace-delimited token of `s`: the longest run of
/// non-whitespace characters that starts at the first non-whitespace
/// character. `None` where `s` is empty or all whitespace.
pub open spec fn first_token(s: Seq<char>) -> Option<Seq<char>> {
    let start = scan(s, 0, false);
    if start >= s.len() {
        None
    } else {
        Some(s.subrange(start, scan(s, start, true)))
    }
}

/// Whether a whitespace-delimited token begins at position `i` of `s`.
pub open spec fn is_word_start(s: Seq<char>, i: int) -> bool {
    &&& 0 <= i < s.len()
    &&& !is_whitespace(s[i])
    &&& (i == 0 || is_whitespace(s[i - 1]))
}

/// The number of tokens of `s` that begin before position `n`.
pub open spec fn words_before(s: Seq<char>, n: int) -> nat
    decreases n,
{
    if n <= 0 {
        0
    } else {
        words_before(s, n - 1) + if is_word_start(s, n - 1) {
            1nat
        } else {
            0nat
        }
    }
}

/// The number of whitespace-delimited tokens of `s`.
pub open spec fn word_count(s: Seq<char>) -> nat {
    words_before(s, s.len() as int)
}

/// What stands before and after the first `sep` of `s`; `None` where `s`
/// holds no `sep`.
pub open spec fn split_once(s: Seq<char>, sep: char) -> Option<(Seq<char>, Seq<char>)> {
    match s.index_of_first(sep) {
        Some(i) => Some((s.take(i), s.skip(i + 1))),
        None => None,
    }
}

/// What stands before the first `c` of `s`; all of `s` where it holds no
/// `c`.
pub open spec fn before(s: Seq<char>, c: char) -> Seq<char> {
    match s.index_of_first(c) {
        Some(i) => s.take(i),
        None => s,
    }
}

/// The pieces of `s` between its occurrences of `sep`, in order. A string
/// without `sep` is its own single piece; pieces may be empty.
pub open spec fn split_on(s: Seq<char>, sep: char) -> Seq<Seq<char>>
    decreases s.len(),
    via split_on_decreases
{
    match s.index_of_first(sep) {
        Some(i) => seq![s.take(i)] + split_on(s.skip(i + 1), sep),
        None => seq![s],
    }
}

#[via_fn]
proof fn split_on_decreases(s: Seq<char>, sep: char) {
    s.index_of_first_ensures(sep);
}

/// `scan` stops at the first character of the wanted kind and passes over
/// characters of the other kind only.
pub proof fn lemma_scan(s: Seq<char>, from: int, whitespace: bool)
    requires
        0 <= from <= s.len(),
    ensures
        from <= scan(s, from, whitespace) <= s.len(),
        forall|k: int|
            from <= k < scan(s, from, whitespace) ==> is_whitespace(#[trigger] s[k]) != whitespace,
        scan(s, from, whitespace) < s.len() ==> is_whitespace(s[scan(s, from, whitespace)])
            == whitespace,
    decreases s.len() - from,
{
    if from < s.len() && is_whitespace(s[from]) != whitespace {
        lemma_scan(s, from + 1, whitespace);
    }
}

/// A first token is never empty and holds no whitespace.
pub proof fn lemma_first_token_is_a_word(s: Seq<char>)
    ensures
        match first_token(s) {
            Some(t) => t.len() > 0 && forall|k: int| 0 <= k < t.len() ==> !is_whitespace(t[k]),
            None => forall|k: int| 0 <= k < s.len() ==> is_whitespace(s[k]),
        },
{
    lemma_scan(s, 0, false);
    let start = scan(s, 0, false);
    if start < s.len() {
        lemma_scan(s, start, true);
    }
}

/// Whether `c` is whitespace, as `char::is_whitespace` decides it.
pub fn char_is_whitespace(c: char) -> (b: bool)
    ensures
        b == is_whitespace(c),
{
    let n: u32 = c as u32;
    (0x09 <= n && n <= 0x0D) || n == 0x20 || n == 0x85 || n == 0xA0 || n == 0x1680 || (0x2000 <= n
        && n <= 0x200A) || n == 0x2028 || n == 0x2029 || n == 0x202F || n == 0x205F || n == 0x3000
}

/// The characters of `s`, in order.
pub fn chars_of(s: &str) -> (v: Vec<char>)
    ensures
        v@ == s@,
{
    let mut v: Vec<char> = Vec::new();
    for c in it: s.chars()
        invariant
            v@ == it.seq().take(it.index() as int),
            it.seq() == s@,
    {
        v.push(c);
    }
    v
}

/// The position of the first `c` in `s`.
pub fn find_char(s: &[char], c: char) -> (r: Option<usize>)
    ensures
        match r {
            Some(i) => s@.index_of_first(c) == Some(i as int),
            None => s@.index_of_first(c) is None,
        },
{
    let mut i: usize = 0;
    while i < s.len()
        invariant
            i <= s.len(),
            forall|j: int| 0 <= j < i ==> s@[j] != c,
        decreases s.len() - i,
    {
        if s[i] == c {
            proof {
                assert(s@[i as int] == c);
                s@.index_of_first_ensures(c);
            }
            return Some(i);
        }
        i += 1;
    }
    proof {
        s@.index_of_first_ensures(c);
    }
    None
}

/// The part of `s` before its first `c`.
pub fn cut_before<'a>(s: &'a [char], c: char) -> (r: &'a [char])
    ensures
        r@ == before(s@, c),
{
    match find_char(s, c) {
        Some(i) => {
            proof {
                s@.index_of_first_ensures(c);
            }
            slice_subrange(s, 0, i)
        },
        None => s,
    }
}

/// The position that `scan` names, found by walking `s` from `from`.
pub fn scan_from(s: &[char], from: usize, whitespace: bool) -> (r: usize)
    ensures
        r == scan(s@, from as int, whitespace),
        r <= s.len(),
        from <= s.len() ==> from <= r,
{
    if from >= s.len() {
        return s.len();
    }
    let mut i: usize = from;
    while i < s.len() && char_is_whitespace(s[i]) != whitespace
        invariant
            from <= i <= s.len(),
            scan(s@, from as int, whitespace) == scan(s@, i as int, whitespace),
        decreases s.len() - i,
    {
        i += 1;
    }
    i
}

/// Where the first token of `s` begins and ends.
pub fn first_token_bounds(s: &[char]) -> (r: Option<(usize, usize)>)
    ensures
        match r {
            Some((start, end)) => start < end <= s.len() && first_token(s@) == Some(
                s@.subrange(start as int, end as int),
            ),
            None => first_token(s@) is None,
        },
{
    let start = scan_from(s, 0, false);
    if start >= s.len() {
        None
    } else {
        let end = scan_from(s, start, true);
        proof {
            lemma_scan(s@, start as int, true);
            lemma_scan(s@, 0, false);
        }
        Some((start, end))
    }
}

/// The number of whitespace-delimited tokens of `s`.
pub fn count_words(s: &str) -> (n: usize)
    ensures
        n == word_count(s@),
{
    let chars = chars_of(s);
    let mut n: usize = 0;
    let mut i: usize = 0;
    while i < chars.len()
        invariant
            i <= chars.len(),
            n == words_before(chars@, i as int),
            n <= i,
        decreases chars.len() - i,
    {
        if !char_is_whitespace(chars[i]) && (i == 0 || char_is_whitespace(chars[i - 1])) {
            n += 1;
        }
        i += 1;
    }
    n
}

/// Whether `s` begins with `prefix`.
pub fn starts_with(s: &[char], prefix: &[char]) -> (b: bool)
    ensures
        b == prefix@.is_prefix_of(s@),
{
    if prefix.len() > s.len() {
        return false;
    }
    let mut i: usize = 0;
    while i < prefix.len()
        invariant
            i <= prefix.len() <= s.len(),
            forall|j: int| 0 <= j < i ==> s@[j] == prefix@[j],
        decreases prefix.len() - i,
    {
        if s[i] != prefix[i] {
            assert(s@.subrange(0, prefix@.len() as int)[i as int] != prefix@[i as int]);
            return false;
        }
        i += 1;
    }
    assert(prefix@ =~= s@.subrange(0, prefix@.len() as int));
    true
}

/// Whether `s` ends with `suffix`.
pub fn ends_with(s: &[char], suffix: &[char]) -> (b: bool)
    ensures
        b == suffix@.is_suffix_of(s@),
{
    if suffix.len() > s.len() {
        return false;
    }
    let offset: usize = s.len() - suffix.len();
    let mut i: usize = 0;
    while i < suffix.len()
        invariant
            i <= suffix.len() <= s.len(),
            offset == s.len() - suffix.len(),
            forall|j: int| 0 <= j < i ==> s@[offset + j] == suffix@[j],
        decreases suffix.len() - i,
    {
        if s[offset + i] != suffix[i] {
            assert(s@.subrange(s@.len() - suffix@.len(), s@.len() as int)[i as int]
                != suffix@[i as int]);
            return false;
        }
        i += 1;
    }
    assert(suffix@ =~= s@.subrange(s@.len() - suffix@.len(), s@.len() as int));
    true
}

} // verus!
