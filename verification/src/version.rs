//! Extraction of a normalized `MAJOR.MINOR.PATCH` version token from free
//! text, such as the stdout of a `--version` subprocess or a release tag.
//!
//! A version token is a run of digits, a dot, a run of digits, a dot, and a
//! run of digits. Extraction returns the leftmost such token, with each digit
//! run taken as long as possible; text without one yields nothing.

use vstd::prelude::*;

verus! {

/// A decimal digit.
pub open spec fn is_digit(c: char) -> bool {
    '0' <= c && c <= '9'
}

/// The end of the run of digits starting at `i`: the least index `j >= i`
/// that is past the end of `s` or holds a non-digit.
pub open spec fn digit_run_end(s: Seq<char>, i: int) -> int
    decreases s.len() - i,
{
    if i < 0 || i >= s.len() {
        i
    } else if is_digit(s[i]) {
        digit_run_end(s, i + 1)
    } else {
        i
    }
}

/// A version token begins at `i`: a non-empty digit run, a dot, a non-empty
/// digit run, a dot, and at least one more digit.
pub open spec fn match_at(s: Seq<char>, i: int) -> bool {
    let j1 = digit_run_end(s, i);
    let j2 = digit_run_end(s, j1 + 1);
    &&& 0 <= i < s.len()
    &&& is_digit(s[i])
    &&& j1 < s.len()
    &&& s[j1] == '.'
    &&& j1 + 1 < s.len()
    &&& is_digit(s[j1 + 1])
    &&& j2 < s.len()
    &&& s[j2] == '.'
    &&& j2 + 1 < s.len()
    &&& is_digit(s[j2 + 1])
}

/// Where the token beginning at `i` ends: the third digit run is taken in
/// full.
pub open spec fn match_end(s: Seq<char>, i: int) -> int {
    digit_run_end(s, digit_run_end(s, digit_run_end(s, i) + 1) + 1)
}

/// The first position at or after `i` where a version token begins.
pub open spec fn first_match_from(s: Seq<char>, i: int) -> Option<int>
    decreases s.len() - i,
{
    if i < 0 || i >= s.len() {
        None
    } else if match_at(s, i) {
        Some(i)
    } else {
        first_match_from(s, i + 1)
    }
}

/// The text contains a version token somewhere.
pub open spec fn contains_version(s: Seq<char>) -> bool {
    exists|i: int| match_at(s, i)
}

/// What extraction yields: the leftmost version token, or nothing.
pub open spec fn spec_extract(s: Seq<char>) -> Option<Seq<char>> {
    match first_match_from(s, 0) {
        Some(i) => Some(s.subrange(i, match_end(s, i))),
        None => None,
    }
}

/// A digit run stays within the text and begins where it was asked to.
pub proof fn lemma_run_end_bounds(s: Seq<char>, i: int)
    requires
        0 <= i <= s.len(),
    ensures
        i <= digit_run_end(s, i) <= s.len(),
    decreases s.len() - i,
{
    if i < s.len() && is_digit(s[i]) {
        lemma_run_end_bounds(s, i + 1);
    }
}

/// Every position inside a digit run holds a digit, and the run is maximal:
/// the position just past it, if any, does not.
pub proof fn lemma_run_end_chars(s: Seq<char>, i: int)
    requires
        0 <= i <= s.len(),
    ensures
        forall|k: int| i <= k < digit_run_end(s, i) ==> is_digit(s[k]),
        digit_run_end(s, i) < s.len() ==> !is_digit(s[digit_run_end(s, i)]),
    decreases s.len() - i,
{
    if i < s.len() && is_digit(s[i]) {
        lemma_run_end_chars(s, i + 1);
    }
}

/// Conversely, a maximal all-digit stretch determines the run end.
pub proof fn lemma_run_end_of_digits(s: Seq<char>, i: int, j: int)
    requires
        0 <= i <= j <= s.len(),
        forall|k: int| i <= k < j ==> is_digit(s[k]),
        j < s.len() ==> !is_digit(s[j]),
    ensures
        digit_run_end(s, i) == j,
    decreases j - i,
{
    if i < j {
        assert(is_digit(s[i]));
        lemma_run_end_of_digits(s, i + 1, j);
    }
}

/// The first match at or after `i`, when it exists, is a match and nothing
/// before it (from `i` on) is one; when it does not exist, no position from
/// `i` on matches.
pub proof fn lemma_first_match_props(s: Seq<char>, i: int)
    requires
        0 <= i,
    ensures
        match first_match_from(s, i) {
            Some(j) => i <= j < s.len() && match_at(s, j) && forall|k: int|
                i <= k < j ==> !match_at(s, k),
            None => forall|k: int| i <= k ==> !match_at(s, k),
        },
    decreases s.len() - i,
{
    if i < s.len() && !match_at(s, i) {
        lemma_first_match_props(s, i + 1);
    }
}

fn is_digit_char(c: char) -> (b: bool)
    ensures
        b == is_digit(c),
{
    '0' <= c && c <= '9'
}

/// Walks to the end of the digit run starting at `i`.
fn run_end(text: &str, i: usize, n: usize) -> (j: usize)
    requires
        n == text@.len(),
        i <= n,
    ensures
        j == digit_run_end(text@, i as int),
        i <= j <= n,
{
    let mut j: usize = i;
    while j < n && is_digit_char(text.get_char(j))
        invariant
            n == text@.len(),
            i <= j <= n,
            digit_run_end(text@, i as int) == digit_run_end(text@, j as int),
        decreases n - j,
    {
        j = j + 1;
    }
    j
}

/// Decides whether a version token begins at `i` and, if so, where it ends.
fn match_end_at(text: &str, i: usize, n: usize) -> (r: Option<usize>)
    requires
        n == text@.len(),
        i < n,
    ensures
        match r {
            Some(e) => match_at(text@, i as int) && e == match_end(text@, i as int) && i < e <= n,
            None => !match_at(text@, i as int),
        },
{
    if !is_digit_char(text.get_char(i)) {
        return None;
    }
    let j1 = run_end(text, i, n);
    if j1 >= n || text.get_char(j1) != '.' {
        return None;
    }
    if j1 + 1 >= n || !is_digit_char(text.get_char(j1 + 1)) {
        return None;
    }
    let j2 = run_end(text, j1 + 1, n);
    if j2 >= n || text.get_char(j2) != '.' {
        return None;
    }
    if j2 + 1 >= n || !is_digit_char(text.get_char(j2 + 1)) {
        return None;
    }
    let j3 = run_end(text, j2 + 1, n);
    Some(j3)
}

/// Scans `text` left to right and returns the first `MAJOR.MINOR.PATCH`
/// token, or nothing when no such token occurs. Subprocess output and remote
/// release tags both pass through this same normalization, so a tag such as
/// "v1.4.0" compares against local output as "1.4.0".
pub fn extract_version(text: &str) -> (r: Option<String>)
    ensures
        r.deep_view() == spec_extract(text@),
{
    let n = text.unicode_len();
    let mut i: usize = 0;
    while i < n
        invariant
            n == text@.len(),
            i <= n,
            first_match_from(text@, 0) == first_match_from(text@, i as int),
        decreases n - i,
    {
        match match_end_at(text, i, n) {
            Some(e) => {
                let token = text.substring_char(i, e);
                return Some(String::from_str(token));
            },
            None => {
                i = i + 1;
            },
        }
    }
    None
}

/// Extraction misses exactly when the text holds no version token.
pub proof fn lemma_extract_none(s: Seq<char>)
    ensures
        spec_extract(s) is None <==> !contains_version(s),
{
    lemma_first_match_props(s, 0);
    if spec_extract(s) is None {
        assert forall|i: int| !match_at(s, i) by {
            if 0 <= i {
                assert(!match_at(s, i));
            }
        }
    }
}

/// Extraction is idempotent: the token that extraction yields is itself a
/// version token in full, so extracting from it yields it back unchanged.
pub proof fn lemma_extract_idempotent(s: Seq<char>)
    requires
        spec_extract(s) is Some,
    ensures
        spec_extract(spec_extract(s).unwrap()) == spec_extract(s),
{
    lemma_first_match_props(s, 0);
    let i = first_match_from(s, 0).unwrap();
    let j1 = digit_run_end(s, i);
    let j2 = digit_run_end(s, j1 + 1);
    let j3 = digit_run_end(s, j2 + 1);
    lemma_run_end_bounds(s, i);
    lemma_run_end_chars(s, i);
    lemma_run_end_bounds(s, j1 + 1);
    lemma_run_end_chars(s, j1 + 1);
    lemma_run_end_bounds(s, j2 + 1);
    lemma_run_end_chars(s, j2 + 1);
    let v = s.subrange(i, j3);
    assert(!is_digit('.'));
    assert forall|k: int| 0 <= k < j1 - i implies is_digit(v[k]) by {
        assert(v[k] == s[i + k]);
    }
    assert(v[j1 - i] == s[j1]);
    lemma_run_end_of_digits(v, 0, j1 - i);
    assert forall|k: int| j1 - i + 1 <= k < j2 - i implies is_digit(v[k]) by {
        assert(v[k] == s[i + k]);
    }
    assert(v[j2 - i] == s[j2]);
    lemma_run_end_of_digits(v, j1 - i + 1, j2 - i);
    assert forall|k: int| j2 - i + 1 <= k < j3 - i implies is_digit(v[k]) by {
        assert(v[k] == s[i + k]);
    }
    lemma_run_end_of_digits(v, j2 - i + 1, j3 - i);
    assert(v[0] == s[i]);
    assert(v[j1 - i + 1] == s[j1 + 1]);
    assert(v[j2 - i + 1] == s[j2 + 1]);
    assert(match_at(v, 0));
    assert(first_match_from(v, 0) == Some(0int));
    assert(match_end(v, 0) == v.len());
    assert(v.subrange(0, v.len() as int) =~= v);
}

} // verus!
