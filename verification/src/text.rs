//! Character-sequence helpers shared by the path, URI and metadata parsers.
//!
//! Strings are handled as sequences of `char`; every helper here is stated over
//! `Seq<char>` so that callers can speak of trimming, splitting and searching
//! in their own contracts.
use vstd::prelude::*;

verus! {

/// The characters of a string slice, in order.
#[verifier::external_body]
pub(crate) fn str_chars(s: &str) -> (r: Vec<char>)
    ensures
        r@ == s@,
{
    s.chars().collect()
}

/// A string holding exactly the given characters.
#[verifier::external_body]
pub(crate) fn string_from_chars(v: &[char]) -> (s: String)
    ensures
        s@ == v@,
{
    v.iter().collect()
}

/// Unicode `White_Space`, the property that `char::is_whitespace` tests.
pub open spec fn is_ws(c: char) -> bool {
    ||| ('\u{9}' <= c && c <= '\u{d}')
    ||| c == ' '
    ||| c == '\u{85}'
    ||| c == '\u{a0}'
    ||| c == '\u{1680}'
    ||| ('\u{2000}' <= c && c <= '\u{200a}')
    ||| c == '\u{2028}'
    ||| c == '\u{2029}'
    ||| c == '\u{202f}'
    ||| c == '\u{205f}'
    ||| c == '\u{3000}'
}

pub fn char_is_ws(c: char) -> (r: bool)
    ensures
        r == is_ws(c),
{
    ('\u{9}' <= c && c <= '\u{d}') || c == ' ' || c == '\u{85}' || c == '\u{a0}' || c
        == '\u{1680}' || ('\u{2000}' <= c && c <= '\u{200a}') || c == '\u{2028}' || c
        == '\u{2029}' || c == '\u{202f}' || c == '\u{205f}' || c == '\u{3000}'
}

// ---------------------------------------------------------------------------
// Prefix / suffix tests
// ---------------------------------------------------------------------------
pub open spec fn seq_starts_with(s: Seq<char>, prefix: Seq<char>) -> bool {
    prefix.len() <= s.len() && s.subrange(0, prefix.len() as int) == prefix
}

pub open spec fn seq_ends_with(s: Seq<char>, suffix: Seq<char>) -> bool {
    suffix.len() <= s.len() && s.subrange(s.len() - suffix.len(), s.len() as int) == suffix
}

pub fn chars_start_with(s: &[char], prefix: &[char]) -> (r: bool)
    ensures
        r == seq_starts_with(s@, prefix@),
{
    if prefix.len() > s.len() {
        return false;
    }
    let mut i: usize = 0;
    while i < prefix.len()
        invariant
            prefix.len() <= s.len(),
            i <= prefix.len(),
            forall|j: int| 0 <= j < i ==> s@[j] == prefix@[j],
        decreases prefix.len() - i,
    {
        if s[i] != prefix[i] {
            assert(s@.subrange(0, prefix@.len() as int)[i as int] != prefix@[i as int]);
            return false;
        }
        i = i + 1;
    }
    assert(s@.subrange(0, prefix@.len() as int) =~= prefix@);
    true
}

pub fn chars_end_with(s: &[char], suffix: &[char]) -> (r: bool)
    ensures
        r == seq_ends_with(s@, suffix@),
{
    if suffix.len() > s.len() {
        return false;
    }
    let off = s.len() - suffix.len();
    let mut i: usize = 0;
    while i < suffix.len()
        invariant
            off + suffix.len() == s.len(),
            i <= suffix.len(),
            forall|j: int| 0 <= j < i ==> s@[off + j] == suffix@[j],
        decreases suffix.len() - i,
    {
        if s[off + i] != suffix[i] {
            assert(s@.subrange(off as int, s@.len() as int)[i as int] != suffix@[i as int]);
            return false;
        }
        i = i + 1;
    }
    assert(s@.subrange(off as int, s@.len() as int) =~= suffix@);
    true
}

pub fn chars_eq(a: &[char], b: &[char]) -> (r: bool)
    ensures
        r == (a@ == b@),
{
    if a.len() != b.len() {
        return false;
    }
    let mut i: usize = 0;
    while i < a.len()
        invariant
            a.len() == b.len(),
            i <= a.len(),
            forall|j: int| 0 <= j < i ==> a@[j] == b@[j],
        decreases a.len() - i,
    {
        if a[i] != b[i] {
            return false;
        }
        i = i + 1;
    }
    assert(a@ =~= b@);
    true
}

/// Whether `c` occurs in `s`.
pub fn chars_contain(s: &[char], c: char) -> (r: bool)
    ensures
        r == s@.contains(c),
{
    let mut i: usize = 0;
    while i < s.len()
        invariant
            i <= s.len(),
            forall|j: int| 0 <= j < i ==> s@[j] != c,
        decreases s.len() - i,
    {
        if s[i] == c {
            return true;
        }
        i = i + 1;
    }
    false
}

// ---------------------------------------------------------------------------
// Searching
// ---------------------------------------------------------------------------
/// Index of the first occurrence of `c` in `s`.
pub open spec fn find_char(s: Seq<char>, c: char) -> Option<int>
    decreases s.len(),
{
    if s.len() == 0 {
        None
    } else if s[0] == c {
        Some(0)
    } else {
        match find_char(s.drop_first(), c) {
            Some(i) => Some(i + 1),
            None => None,
        }
    }
}

/// Index of the last occurrence of `c` in `s`.
pub open spec fn rfind_char(s: Seq<char>, c: char) -> Option<int>
    decreases s.len(),
{
    if s.len() == 0 {
        None
    } else if s.last() == c {
        Some(s.len() - 1)
    } else {
        rfind_char(s.drop_last(), c)
    }
}

pub proof fn lemma_find_char(s: Seq<char>, c: char)
    ensures
        match find_char(s, c) {
            Some(i) => 0 <= i < s.len() && s[i] == c && forall|j: int| 0 <= j < i ==> s[j] != c,
            None => forall|j: int| 0 <= j < s.len() ==> s[j] != c,
        },
    decreases s.len(),
{
    if s.len() > 0 && s[0] != c {
        lemma_find_char(s.drop_first(), c);
        assert forall|j: int| 1 <= j < s.len() implies s[j] == s.drop_first()[j - 1] by {}
    }
}

pub proof fn lemma_find_char_unique(s: Seq<char>, c: char, i: int)
    requires
        0 <= i < s.len(),
        s[i] == c,
        forall|j: int| 0 <= j < i ==> s[j] != c,
    ensures
        find_char(s, c) == Some(i),
{
    lemma_find_char(s, c);
}

pub proof fn lemma_find_char_none(s: Seq<char>, c: char)
    requires
        forall|j: int| 0 <= j < s.len() ==> s[j] != c,
    ensures
        find_char(s, c) is None,
{
    lemma_find_char(s, c);
}

pub proof fn lemma_rfind_char(s: Seq<char>, c: char)
    ensures
        match rfind_char(s, c) {
            Some(i) => 0 <= i < s.len() && s[i] == c && forall|j: int| i < j < s.len() ==> s[j]
                != c,
            None => forall|j: int| 0 <= j < s.len() ==> s[j] != c,
        },
    decreases s.len(),
{
    if s.len() > 0 && s.last() != c {
        lemma_rfind_char(s.drop_last(), c);
        assert forall|j: int| 0 <= j < s.len() - 1 implies s[j] == s.drop_last()[j] by {}
    }
}

pub proof fn lemma_rfind_char_unique(s: Seq<char>, c: char, i: int)
    requires
        0 <= i < s.len(),
        s[i] == c,
        forall|j: int| i < j < s.len() ==> s[j] != c,
    ensures
        rfind_char(s, c) == Some(i),
{
    lemma_rfind_char(s, c);
}

pub fn chars_find(s: &[char], c: char) -> (r: Option<usize>)
    ensures
        match r {
            Some(i) => find_char(s@, c) == Some(i as int),
            None => find_char(s@, c) is None,
        },
{
    let mut i: usize = 0;
    while i < s.len()
        invariant
            i <= s.len(),
            forall|j: int| 0 <= j < i ==> s@[j] != c,
        decreases s.len() - i,
    {
        if s[i] == c {
            proof {
                lemma_find_char_unique(s@, c, i as int);
            }
            return Some(i);
        }
        i = i + 1;
    }
    proof {
        lemma_find_char_none(s@, c);
    }
    None
}

pub fn chars_rfind(s: &[char], c: char) -> (r: Option<usize>)
    ensures
        match r {
            Some(i) => rfind_char(s@, c) == Some(i as int),
            None => rfind_char(s@, c) is None,
        },
{
    let mut i: usize = s.len();
    while i > 0
        invariant
            i <= s.len(),
            forall|j: int| i <= j < s.len() ==> s@[j] != c,
        decreases i,
    {
        if s[i - 1] == c {
            proof {
                lemma_rfind_char_unique(s@, c, i - 1);
            }
            return Some(i - 1);
        }
        i = i - 1;
    }
    proof {
        lemma_rfind_char(s@, c);
        if rfind_char(s@, c) is Some {
            let k = rfind_char(s@, c)->0;
            assert(s@[k] == c);
        }
    }
    None
}

/// Whether `pat` occurs in `s` starting at index `i`.
pub open spec fn matches_at(s: Seq<char>, pat: Seq<char>, i: int) -> bool {
    0 <= i && i + pat.len() <= s.len() && s.subrange(i, i + pat.len()) == pat
}

/// Index of the first occurrence of `pat` in `s`.
pub open spec fn find_sub(s: Seq<char>, pat: Seq<char>) -> Option<int>
    decreases s.len(),
{
    if s.len() < pat.len() {
        None
    } else if s.subrange(0, pat.len() as int) == pat {
        Some(0)
    } else if s.len() == 0 {
        None
    } else {
        match find_sub(s.drop_first(), pat) {
            Some(i) => Some(i + 1),
            None => None,
        }
    }
}

pub proof fn lemma_find_sub(s: Seq<char>, pat: Seq<char>)
    ensures
        match find_sub(s, pat) {
            Some(i) => matches_at(s, pat, i) && forall|j: int| 0 <= j < i ==> !matches_at(s, pat, j),
            None => forall|j: int| !matches_at(s, pat, j),
        },
    decreases s.len(),
{
    if s.len() < pat.len() {
    } else if s.subrange(0, pat.len() as int) == pat {
    } else if s.len() == 0 {
        assert(s.subrange(0, 0) =~= pat);
    } else {
        let t = s.drop_first();
        lemma_find_sub(t, pat);
        assert forall|j: int| 1 <= j implies matches_at(s, pat, j) == matches_at(t, pat, j - 1) by {
            if j + pat.len() <= s.len() {
                assert(s.subrange(j, j + pat.len()) =~= t.subrange(j - 1, j - 1 + pat.len()));
            }
        }
    }
}

pub proof fn lemma_find_sub_at(s: Seq<char>, pat: Seq<char>, i: int)
    requires
        matches_at(s, pat, i),
        forall|j: int| 0 <= j < i ==> !matches_at(s, pat, j),
    ensures
        find_sub(s, pat) == Some(i),
{
    lemma_find_sub(s, pat);
}

pub proof fn lemma_find_sub_none(s: Seq<char>, pat: Seq<char>)
    requires
        forall|j: int| !matches_at(s, pat, j),
    ensures
        find_sub(s, pat) is None,
{
    lemma_find_sub(s, pat);
    if find_sub(s, pat) is Some {
        let k = find_sub(s, pat)->0;
        assert(matches_at(s, pat, k));
    }
}

fn chars_match_at(s: &[char], pat: &[char], i: usize) -> (r: bool)
    requires
        i <= s.len(),
    ensures
        r == matches_at(s@, pat@, i as int),
{
    if pat.len() > s.len() - i {
        return false;
    }
    let mut k: usize = 0;
    while k < pat.len()
        invariant
            i + pat.len() <= s.len(),
            k <= pat.len(),
            forall|j: int| 0 <= j < k ==> s@[i + j] == pat@[j],
        decreases pat.len() - k,
    {
        if s[i + k] != pat[k] {
            assert(s@.subrange(i as int, i + pat@.len())[k as int] != pat@[k as int]);
            return false;
        }
        k = k + 1;
    }
    assert(s@.subrange(i as int, i + pat@.len()) =~= pat@);
    true
}

/// Index of the first occurrence of `pat` in `s`.
pub fn chars_find_sub(s: &[char], pat: &[char]) -> (r: Option<usize>)
    ensures
        match r {
            Some(i) => find_sub(s@, pat@) == Some(i as int),
            None => find_sub(s@, pat@) is None,
        },
{
    let mut i: usize = 0;
    while i < s.len()
        invariant
            i <= s.len(),
            forall|j: int| 0 <= j < i ==> !matches_at(s@, pat@, j),
        decreases s.len() - i,
    {
        if chars_match_at(s, pat, i) {
            proof {
                lemma_find_sub_at(s@, pat@, i as int);
            }
            return Some(i);
        }
        i = i + 1;
    }
    if chars_match_at(s, pat, i) {
        proof {
            lemma_find_sub_at(s@, pat@, i as int);
        }
        return Some(i);
    }
    proof {
        assert forall|j: int| !matches_at(s@, pat@, j) by {
            if 0 <= j <= i {
            }
        }
        lemma_find_sub_none(s@, pat@);
    }
    None
}

pub open spec fn contains_sub(s: Seq<char>, pat: Seq<char>) -> bool {
    exists|i: int| matches_at(s, pat, i)
}

pub fn chars_contain_sub(s: &[char], pat: &[char]) -> (r: bool)
    ensures
        r == contains_sub(s@, pat@),
{
    let f = chars_find_sub(s, pat);
    proof {
        lemma_find_sub(s@, pat@);
    }
    match f {
        Some(i) => {
            assert(matches_at(s@, pat@, i as int));
            true
        },
        None => false,
    }
}

// ---------------------------------------------------------------------------
// Trimming
// ---------------------------------------------------------------------------
/// Number of leading characters of `s` that are whitespace.
pub open spec fn lead_ws(s: Seq<char>) -> nat
    decreases s.len(),
{
    if s.len() > 0 && is_ws(s[0]) {
        1 + lead_ws(s.drop_first())
    } else {
        0
    }
}

/// Number of trailing characters of `s` that are whitespace.
pub open spec fn trail_ws(s: Seq<char>) -> nat
    decreases s.len(),
{
    if s.len() > 0 && is_ws(s.last()) {
        1 + trail_ws(s.drop_last())
    } else {
        0
    }
}

/// Number of leading characters of `s` equal to `c`.
pub open spec fn lead_char(s: Seq<char>, c: char) -> nat
    decreases s.len(),
{
    if s.len() > 0 && s[0] == c {
        1 + lead_char(s.drop_first(), c)
    } else {
        0
    }
}

/// Number of trailing characters of `s` equal to `c`.
pub open spec fn trail_char(s: Seq<char>, c: char) -> nat
    decreases s.len(),
{
    if s.len() > 0 && s.last() == c {
        1 + trail_char(s.drop_last(), c)
    } else {
        0
    }
}

/// `s` without leading whitespace (`str::trim_start`).
pub open spec fn trim_start_ws(s: Seq<char>) -> Seq<char> {
    s.subrange(lead_ws(s) as int, s.len() as int)
}

/// `s` without trailing whitespace (`str::trim_end`).
pub open spec fn trim_end_ws(s: Seq<char>) -> Seq<char> {
    s.subrange(0, s.len() - trail_ws(s))
}

/// `s` without leading and trailing whitespace (`str::trim`).
pub open spec fn trim_ws(s: Seq<char>) -> Seq<char> {
    trim_end_ws(trim_start_ws(s))
}

/// `s` without leading copies of `c` (`str::trim_start_matches`).
pub open spec fn trim_start_char(s: Seq<char>, c: char) -> Seq<char> {
    s.subrange(lead_char(s, c) as int, s.len() as int)
}

/// `s` without trailing copies of `c` (`str::trim_end_matches`).
pub open spec fn trim_end_char(s: Seq<char>, c: char) -> Seq<char> {
    s.subrange(0, s.len() - trail_char(s, c))
}

/// `s` without leading and trailing copies of `c` (`str::trim_matches`).
pub open spec fn trim_char(s: Seq<char>, c: char) -> Seq<char> {
    trim_end_char(trim_start_char(s, c), c)
}

pub proof fn lemma_lead_ws(s: Seq<char>, i: int)
    requires
        0 <= i <= s.len(),
        forall|j: int| 0 <= j < i ==> is_ws(s[j]),
    ensures
        lead_ws(s) == i + lead_ws(s.subrange(i, s.len() as int)),
        lead_ws(s) <= s.len(),
    decreases i,
{
    if i > 0 {
        let t = s.drop_first();
        lemma_lead_ws(t, i - 1);
        assert(t.subrange(i - 1, t.len() as int) =~= s.subrange(i, s.len() as int));
    } else {
        assert(s.subrange(0, s.len() as int) =~= s);
        lemma_lead_ws_bound(s);
    }
}

pub proof fn lemma_lead_ws_bound(s: Seq<char>)
    ensures
        lead_ws(s) <= s.len(),
        forall|j: int| 0 <= j < lead_ws(s) ==> is_ws(#[trigger] s[j]),
        lead_ws(s) < s.len() ==> !is_ws(s[lead_ws(s) as int]),
    decreases s.len(),
{
    if s.len() > 0 && is_ws(s[0]) {
        lemma_lead_ws_bound(s.drop_first());
        assert forall|j: int| 0 <= j < lead_ws(s) implies is_ws(#[trigger] s[j]) by {
            if j > 0 {
                assert(s[j] == s.drop_first()[j - 1]);
            }
        }
    }
}

pub proof fn lemma_trail_ws_bound(s: Seq<char>)
    ensures
        trail_ws(s) <= s.len(),
        forall|j: int| s.len() - trail_ws(s) <= j < s.len() ==> is_ws(#[trigger] s[j]),
        trail_ws(s) < s.len() ==> !is_ws(s[s.len() - trail_ws(s) - 1]),
    decreases s.len(),
{
    if s.len() > 0 && is_ws(s.last()) {
        lemma_trail_ws_bound(s.drop_last());
        assert forall|j: int| 0 <= j < s.len() - 1 implies s[j] == s.drop_last()[j] by {}
    }
}

pub proof fn lemma_trail_ws(s: Seq<char>, i: int)
    requires
        0 <= i <= s.len(),
        forall|j: int| s.len() - i <= j < s.len() ==> is_ws(s[j]),
    ensures
        trail_ws(s) == i + trail_ws(s.subrange(0, s.len() - i)),
    decreases i,
{
    if i > 0 {
        let t = s.drop_last();
        lemma_trail_ws(t, i - 1);
        assert(t.subrange(0, t.len() - (i - 1)) =~= s.subrange(0, s.len() - i));
    } else {
        assert(s.subrange(0, s.len() as int) =~= s);
    }
}

pub proof fn lemma_lead_char(s: Seq<char>, c: char, i: int)
    requires
        0 <= i <= s.len(),
        forall|j: int| 0 <= j < i ==> s[j] == c,
    ensures
        lead_char(s, c) == i + lead_char(s.subrange(i, s.len() as int), c),
    decreases i,
{
    if i > 0 {
        let t = s.drop_first();
        lemma_lead_char(t, c, i - 1);
        assert(t.subrange(i - 1, t.len() as int) =~= s.subrange(i, s.len() as int));
    } else {
        assert(s.subrange(0, s.len() as int) =~= s);
    }
}

pub proof fn lemma_lead_char_bound(s: Seq<char>, c: char)
    ensures
        lead_char(s, c) <= s.len(),
        forall|j: int| 0 <= j < lead_char(s, c) ==> #[trigger] s[j] == c,
        lead_char(s, c) < s.len() ==> s[lead_char(s, c) as int] != c,
    decreases s.len(),
{
    if s.len() > 0 && s[0] == c {
        lemma_lead_char_bound(s.drop_first(), c);
        assert forall|j: int| 0 <= j < lead_char(s, c) implies #[trigger] s[j] == c by {
            if j > 0 {
                assert(s[j] == s.drop_first()[j - 1]);
            }
        }
    }
}

pub proof fn lemma_trail_char(s: Seq<char>, c: char, i: int)
    requires
        0 <= i <= s.len(),
        forall|j: int| s.len() - i <= j < s.len() ==> s[j] == c,
    ensures
        trail_char(s, c) == i + trail_char(s.subrange(0, s.len() - i), c),
    decreases i,
{
    if i > 0 {
        let t = s.drop_last();
        lemma_trail_char(t, c, i - 1);
        assert(t.subrange(0, t.len() - (i - 1)) =~= s.subrange(0, s.len() - i));
    } else {
        assert(s.subrange(0, s.len() as int) =~= s);
    }
}

pub proof fn lemma_trail_char_bound(s: Seq<char>, c: char)
    ensures
        trail_char(s, c) <= s.len(),
        forall|j: int| s.len() - trail_char(s, c) <= j < s.len() ==> #[trigger] s[j] == c,
        trail_char(s, c) < s.len() ==> s[s.len() - trail_char(s, c) - 1] != c,
    decreases s.len(),
{
    if s.len() > 0 && s.last() == c {
        lemma_trail_char_bound(s.drop_last(), c);
        assert forall|j: int| 0 <= j < s.len() - 1 implies s[j] == s.drop_last()[j] by {}
    }
}

/// `str::trim`: the characters of `s` without leading and trailing whitespace.
pub fn chars_trim(s: &[char]) -> (r: Vec<char>)
    ensures
        r@ == trim_ws(s@),
{
    let mut start: usize = 0;
    while start < s.len() && char_is_ws(s[start])
        invariant
            start <= s.len(),
            forall|j: int| 0 <= j < start ==> is_ws(s@[j]),
        decreases s.len() - start,
    {
        start = start + 1;
    }
    proof {
        lemma_lead_ws(s@, start as int);
        let rest = s@.subrange(start as int, s@.len() as int);
        if rest.len() > 0 {
            assert(rest[0] == s@[start as int]);
        }
    }
    let mut end: usize = s.len();
    while end > start && char_is_ws(s[end - 1])
        invariant
            start <= end <= s.len(),
            forall|j: int| end <= j < s.len() ==> is_ws(s@[j]),
        decreases end,
    {
        end = end - 1;
    }
    let ghost t = s@.subrange(start as int, s@.len() as int);
    proof {
        assert(trim_start_ws(s@) == t);
        let k = s@.len() - end;
        assert forall|j: int| t.len() - k <= j < t.len() implies is_ws(t[j]) by {
            assert(t[j] == s@[start + j]);
        }
        lemma_trail_ws(t, k);
        let u = t.subrange(0, t.len() - k);
        if u.len() > 0 {
            assert(u.last() == s@[end - 1]);
        }
    }
    let mut r: Vec<char> = Vec::new();
    let mut i: usize = start;
    while i < end
        invariant
            start <= i <= end <= s.len(),
            r@ == s@.subrange(start as int, i as int),
        decreases end - i,
    {
        r.push(s[i]);
        i = i + 1;
        assert(r@ =~= s@.subrange(start as int, i as int));
    }
    assert(r@ =~= trim_ws(s@));
    r
}

/// The characters of `s` from index `from` up to index `to`.
pub fn chars_slice(s: &[char], from: usize, to: usize) -> (r: Vec<char>)
    requires
        from <= to <= s.len(),
    ensures
        r@ == s@.subrange(from as int, to as int),
{
    let mut r: Vec<char> = Vec::new();
    let mut i: usize = from;
    while i < to
        invariant
            from <= i <= to <= s.len(),
            r@ == s@.subrange(from as int, i as int),
        decreases to - i,
    {
        r.push(s[i]);
        i = i + 1;
        assert(r@ =~= s@.subrange(from as int, i as int));
    }
    r
}

/// `str::trim_start_matches(c)`.
pub fn chars_trim_start_char(s: &[char], c: char) -> (r: Vec<char>)
    ensures
        r@ == trim_start_char(s@, c),
{
    let mut start: usize = 0;
    while start < s.len() && s[start] == c
        invariant
            start <= s.len(),
            forall|j: int| 0 <= j < start ==> s@[j] == c,
        decreases s.len() - start,
    {
        start = start + 1;
    }
    proof {
        lemma_lead_char(s@, c, start as int);
        let rest = s@.subrange(start as int, s@.len() as int);
        if rest.len() > 0 {
            assert(rest[0] == s@[start as int]);
        }
    }
    chars_slice(s, start, s.len())
}

/// `str::trim_end_matches(c)`.
pub fn chars_trim_end_char(s: &[char], c: char) -> (r: Vec<char>)
    ensures
        r@ == trim_end_char(s@, c),
{
    let mut end: usize = s.len();
    while end > 0 && s[end - 1] == c
        invariant
            end <= s.len(),
            forall|j: int| end <= j < s.len() ==> s@[j] == c,
        decreases end,
    {
        end = end - 1;
    }
    proof {
        lemma_trail_char(s@, c, s@.len() - end);
        let u = s@.subrange(0, end as int);
        if u.len() > 0 {
            assert(u.last() == s@[end - 1]);
        }
    }
    chars_slice(s, 0, end)
}

/// `str::trim_matches(c)`.
pub fn chars_trim_char(s: &[char], c: char) -> (r: Vec<char>)
    ensures
        r@ == trim_char(s@, c),
{
    let t = chars_trim_start_char(s, c);
    chars_trim_end_char(&t, c)
}

// ---------------------------------------------------------------------------
// Splitting
// ---------------------------------------------------------------------------
/// `str::split(c)`: the pieces of `s` between occurrences of `c`.
pub open spec fn split_char(s: Seq<char>, c: char) -> Seq<Seq<char>>
    decreases s.len(),
{
    match find_char(s, c) {
        None => seq![s],
        Some(i) => if 0 <= i < s.len() {
            seq![s.subrange(0, i)] + split_char(s.subrange(i + 1, s.len() as int), c)
        } else {
            seq![s]
        },
    }
}

/// `str::split(c)` on a character slice.
pub fn chars_split(s: &[char], c: char) -> (r: Vec<Vec<char>>)
    ensures
        r@.len() == split_char(s@, c).len(),
        forall|k: int| 0 <= k < r@.len() ==> #[trigger] r@[k]@ == split_char(s@, c)[k],
{
    let mut out: Vec<Vec<char>> = Vec::new();
    let mut start: usize = 0;
    let mut i: usize = 0;
    let ghost done: Seq<Seq<char>> = Seq::empty();
    assert(s@.subrange(0, s@.len() as int) =~= s@);
    assert(done + split_char(s@, c) =~= split_char(s@, c));
    while i < s.len()
        invariant
            start <= i <= s.len(),
            forall|j: int| start <= j < i ==> s@[j] != c,
            out@.len() == done.len(),
            forall|k: int| 0 <= k < out@.len() ==> #[trigger] out@[k]@ == done[k],
            done + split_char(s@.subrange(start as int, s@.len() as int), c) == split_char(
                s@,
                c,
            ),
        decreases s.len() - i,
    {
        if s[i] == c {
            let piece = chars_slice(s, start, i);
            proof {
                let rest = s@.subrange(start as int, s@.len() as int);
                let k = i - start;
                assert(rest[k as int] == c);
                assert forall|j: int| 0 <= j < k implies rest[j] != c by {
                    assert(rest[j] == s@[start + j]);
                }
                lemma_find_char_unique(rest, c, k as int);
                assert(rest.subrange(0, k as int) =~= piece@);
                assert(rest.subrange(k + 1, rest.len() as int) =~= s@.subrange(
                    i + 1,
                    s@.len() as int,
                ));
                assert(split_char(rest, c) == seq![piece@] + split_char(
                    s@.subrange(i + 1, s@.len() as int),
                    c,
                ));
                assert(done + seq![piece@] + split_char(s@.subrange(i + 1, s@.len() as int), c)
                    =~= done + split_char(rest, c));
                done = done.push(piece@);
            }
            out.push(piece);
            start = i + 1;
        }
        i = i + 1;
    }
    let last = chars_slice(s, start, s.len());
    proof {
        let rest = s@.subrange(start as int, s@.len() as int);
        assert forall|j: int| 0 <= j < rest.len() implies rest[j] != c by {
            assert(rest[j] == s@[start + j]);
        }
        lemma_find_char_none(rest, c);
        assert(split_char(rest, c) == seq![rest]);
        assert(last@ =~= rest);
        assert(done.push(last@) =~= done + split_char(rest, c));
        done = done.push(last@);
    }
    out.push(last);
    out
}

/// `str::split_once(c)`: the text before and after the first occurrence of `c`.
pub open spec fn split_once_char(s: Seq<char>, c: char) -> Option<(Seq<char>, Seq<char>)> {
    match find_char(s, c) {
        Some(i) => Some((s.subrange(0, i), s.subrange(i + 1, s.len() as int))),
        None => None,
    }
}

/// `str::rsplit_once(c)`: the text before and after the last occurrence of `c`.
pub open spec fn rsplit_once_char(s: Seq<char>, c: char) -> Option<(Seq<char>, Seq<char>)> {
    match rfind_char(s, c) {
        Some(i) => Some((s.subrange(0, i), s.subrange(i + 1, s.len() as int))),
        None => None,
    }
}

pub fn chars_split_once(s: &[char], c: char) -> (r: Option<(Vec<char>, Vec<char>)>)
    ensures
        match r {
            Some((a, b)) => split_once_char(s@, c) == Some((a@, b@)),
            None => split_once_char(s@, c) is None,
        },
{
    match chars_find(s, c) {
        Some(i) => {
            proof {
                lemma_find_char(s@, c);
            }
            assert(i < s.len());
            let a = chars_slice(s, 0, i);
            let b = chars_slice(s, i + 1, s.len());
            Some((a, b))
        },
        None => None,
    }
}

pub fn chars_rsplit_once(s: &[char], c: char) -> (r: Option<(Vec<char>, Vec<char>)>)
    ensures
        match r {
            Some((a, b)) => rsplit_once_char(s@, c) == Some((a@, b@)),
            None => rsplit_once_char(s@, c) is None,
        },
{
    match chars_rfind(s, c) {
        Some(i) => {
            proof {
                lemma_rfind_char(s@, c);
            }
            assert(i < s.len());
            let a = chars_slice(s, 0, i);
            let b = chars_slice(s, i + 1, s.len());
            Some((a, b))
        },
        None => None,
    }
}

/// Append the characters of `text` to `buf`.
pub fn push_text(buf: &mut Vec<char>, text: &str)
    ensures
        final(buf)@ == old(buf)@ + text@,
{
    let t = str_chars(text);
    let joined = chars_concat(buf, &t);
    *buf = joined;
}

/// Concatenation of two character slices.
pub fn chars_concat(a: &[char], b: &[char]) -> (r: Vec<char>)
    ensures
        r@ == a@ + b@,
{
    let mut r = chars_slice(a, 0, a.len());
    let mut i: usize = 0;
    while i < b.len()
        invariant
            i <= b.len(),
            r@ == a@ + b@.subrange(0, i as int),
        decreases b.len() - i,
    {
        r.push(b[i]);
        i = i + 1;
        assert(r@ =~= a@ + b@.subrange(0, i as int));
    }
    assert(b@.subrange(0, b@.len() as int) =~= b@);
    r
}


// ---------------------------------------------------------------------------
// Facts used by round-trip proofs
// ---------------------------------------------------------------------------
/// Trimming `s` leaves exactly `s[a..b]` when everything outside that range
/// is whitespace and the range starts and ends on non-whitespace.
pub proof fn lemma_trim_exact(s: Seq<char>, a: int, b: int)
    requires
        0 <= a <= b <= s.len(),
        forall|j: int| 0 <= j < a ==> is_ws(#[trigger] s[j]),
        forall|j: int| b <= j < s.len() ==> is_ws(#[trigger] s[j]),
        a < b ==> !is_ws(s[a]) && !is_ws(s[b - 1]),
    ensures
        trim_ws(s) == s.subrange(a, b),
{
    if a < b {
        lemma_lead_ws(s, a);
        let t = s.subrange(a, s.len() as int);
        assert(t[0] == s[a]);
        assert(lead_ws(t) == 0);
        assert(trim_start_ws(s) == t);
        let n = s.len() - b;
        assert forall|j: int| t.len() - n <= j < t.len() implies is_ws(t[j]) by {
            assert(t[j] == s[a + j]);
        }
        lemma_trail_ws(t, n);
        let u = t.subrange(0, t.len() - n);
        assert(u.last() == s[b - 1]);
        assert(trail_ws(u) == 0);
        assert(trim_ws(s) =~= s.subrange(a, b));
    } else {
        assert forall|j: int| 0 <= j < s.len() implies is_ws(s[j]) by {
            if j >= a {
                assert(b <= j);
            }
        }
        lemma_lead_ws(s, s.len() as int);
        let t = s.subrange(s.len() as int, s.len() as int);
        assert(t.len() == 0);
        assert(lead_ws(t) == 0);
        assert(trim_start_ws(s).len() == 0);
        assert(trim_ws(s) =~= s.subrange(a, b));
    }
}

/// Splitting at a separator splits the two sides independently.
pub proof fn lemma_split_concat(x: Seq<char>, y: Seq<char>, c: char)
    ensures
        split_char(x + seq![c] + y, c) == split_char(x, c) + split_char(y, c),
    decreases x.len(),
{
    let s = x + seq![c] + y;
    lemma_find_char(x, c);
    match find_char(x, c) {
        None => {
            assert(s[x.len() as int] == c);
            assert forall|j: int| 0 <= j < x.len() implies s[j] != c by {
                assert(s[j] == x[j]);
            }
            lemma_find_char_unique(s, c, x.len() as int);
            assert(s.subrange(0, x.len() as int) =~= x);
            assert(s.subrange(x.len() as int + 1, s.len() as int) =~= y);
            assert(split_char(x, c) == seq![x]);
        },
        Some(i) => {
            assert(s[i] == x[i]);
            assert forall|j: int| 0 <= j < i implies s[j] != c by {
                assert(s[j] == x[j]);
            }
            lemma_find_char_unique(s, c, i);
            let xr = x.subrange(i + 1, x.len() as int);
            lemma_split_concat(xr, y, c);
            assert(s.subrange(0, i) =~= x.subrange(0, i));
            assert(s.subrange(i + 1, s.len() as int) =~= xr + seq![c] + y);
            assert(split_char(x, c) == seq![x.subrange(0, i)] + split_char(xr, c));
            assert(split_char(s, c) =~= split_char(x, c) + split_char(y, c));
        },
    }
}

/// A text without the separator is one piece.
pub proof fn lemma_split_none(x: Seq<char>, c: char)
    requires
        forall|j: int| 0 <= j < x.len() ==> x[j] != c,
    ensures
        split_char(x, c) == seq![x],
{
    lemma_find_char_none(x, c);
}

// ---------------------------------------------------------------------------
// Words
// ---------------------------------------------------------------------------
/// Length of the run of non-whitespace characters at the start of `s`.
pub open spec fn word_end(s: Seq<char>) -> nat
    decreases s.len(),
{
    if s.len() == 0 || is_ws(s[0]) {
        0
    } else {
        1 + word_end(s.drop_first())
    }
}

/// `str::split_whitespace`: the maximal runs of non-whitespace characters.
pub open spec fn words(s: Seq<char>) -> Seq<Seq<char>>
    decreases s.len(),
{
    let t = trim_start_ws(s);
    if t.len() == 0 {
        Seq::empty()
    } else {
        let k = word_end(t);
        if 0 < k <= t.len() && t.len() <= s.len() {
            seq![t.subrange(0, k as int)] + words(t.subrange(k as int, t.len() as int))
        } else {
            Seq::empty()
        }
    }
}

proof fn lemma_word_end(s: Seq<char>, i: int)
    requires
        0 <= i <= s.len(),
        forall|j: int| 0 <= j < i ==> !is_ws(s[j]),
        i == s.len() || is_ws(s[i]),
    ensures
        word_end(s) == i,
    decreases i,
{
    if i > 0 {
        lemma_word_end(s.drop_first(), i - 1);
    }
}

/// `str::split_whitespace` on a character slice.
pub fn chars_words(s: &[char]) -> (r: Vec<Vec<char>>)
    ensures
        r@.len() == words(s@).len(),
        forall|k: int| 0 <= k < r@.len() ==> #[trigger] r@[k]@ == words(s@)[k],
{
    let mut out: Vec<Vec<char>> = Vec::new();
    let ghost mut done: Seq<Seq<char>> = Seq::empty();
    let mut p: usize = 0;
    assert(s@.subrange(0, s@.len() as int) =~= s@);
    while p < s.len()
        invariant
            p <= s.len(),
            out@.len() == done.len(),
            forall|k: int| 0 <= k < out@.len() ==> #[trigger] out@[k]@ == done[k],
            done + words(s@.subrange(p as int, s@.len() as int)) == words(s@),
        decreases s.len() - p,
    {
        let ghost rest = s@.subrange(p as int, s@.len() as int);
        let mut q: usize = p;
        while q < s.len() && char_is_ws(s[q])
            invariant
                p <= q <= s.len(),
                forall|j: int| p <= j < q ==> is_ws(s@[j]),
            decreases s.len() - q,
        {
            q = q + 1;
        }
        proof {
            assert forall|j: int| 0 <= j < q - p implies is_ws(rest[j]) by {
                assert(rest[j] == s@[p + j]);
            }
            lemma_lead_ws(rest, (q - p) as int);
            let t2 = rest.subrange((q - p) as int, rest.len() as int);
            if q < s.len() {
                assert(t2[0] == s@[q as int]);
                assert(lead_ws(t2) == 0);
            } else {
                assert(t2.len() == 0);
            }
            assert(trim_start_ws(rest) =~= s@.subrange(q as int, s@.len() as int));
        }
        if q == s.len() {
            proof {
                assert(words(rest).len() == 0);
                assert(done + words(rest) =~= done);
            }
            p = q;
        } else {
            let mut e: usize = q;
            while e < s.len() && !char_is_ws(s[e])
                invariant
                    q <= e <= s.len(),
                    forall|j: int| q <= j < e ==> !is_ws(s@[j]),
                decreases s.len() - e,
            {
                e = e + 1;
            }
            let word = chars_slice(s, q, e);
            proof {
                let t = s@.subrange(q as int, s@.len() as int);
                assert forall|j: int| 0 <= j < e - q implies !is_ws(t[j]) by {
                    assert(t[j] == s@[q + j]);
                }
                if e < s.len() {
                    assert(t[e - q] == s@[e as int]);
                }
                lemma_word_end(t, (e - q) as int);
                assert(t.subrange(0, (e - q) as int) =~= word@);
                assert(t.subrange((e - q) as int, t.len() as int) =~= s@.subrange(
                    e as int,
                    s@.len() as int,
                ));
                assert(words(rest) == seq![word@] + words(s@.subrange(e as int, s@.len() as int)));
                assert(done.push(word@) + words(s@.subrange(e as int, s@.len() as int)) =~= done
                    + words(rest));
                done = done.push(word@);
            }
            out.push(word);
            p = e;
        }
    }
    proof {
        assert(s@.subrange(p as int, s@.len() as int).len() == 0);
        assert(done + Seq::<Seq<char>>::empty() =~= done);
    }
    out
}

/// `char::to_ascii_lowercase`.
pub open spec fn ascii_lower_char(c: char) -> char {
    if 'A' <= c && c <= 'Z' {
        ((c as int) + 32) as char
    } else {
        c
    }
}

/// `str::to_ascii_lowercase`.
pub open spec fn ascii_lower(s: Seq<char>) -> Seq<char> {
    s.map_values(|c: char| ascii_lower_char(c))
}

pub fn chars_ascii_lower(s: &[char]) -> (r: Vec<char>)
    ensures
        r@ == ascii_lower(s@),
{
    let mut r: Vec<char> = Vec::new();
    let mut i: usize = 0;
    while i < s.len()
        invariant
            i <= s.len(),
            r@ == ascii_lower(s@.subrange(0, i as int)),
        decreases s.len() - i,
    {
        let c = s[i];
        let d = if 'A' <= c && c <= 'Z' {
            ((c as u8) + 32) as char
        } else {
            c
        };
        r.push(d);
        assert(ascii_lower(s@.subrange(0, i + 1)) =~= ascii_lower(s@.subrange(0, i as int)).push(
            ascii_lower_char(c),
        ));
        i = i + 1;
    }
    assert(s@.subrange(0, s@.len() as int) =~= s@);
    r
}

/// Whether a string equals a given text.
pub fn str_is(a: &str, b: &str) -> (r: bool)
    ensures
        r == (a@ == b@),
{
    let x = str_chars(a);
    let y = str_chars(b);
    chars_eq(&x, &y)
}

/// Whether `pat` occurs in `s`.
pub fn str_contains(s: &str, pat: &str) -> (r: bool)
    ensures
        r == contains_sub(s@, pat@),
{
    let x = str_chars(s);
    let y = str_chars(pat);
    chars_contain_sub(&x, &y)
}

/// Whether `s` ends with `suffix`.
pub fn str_ends_with(s: &str, suffix: &str) -> (r: bool)
    ensures
        r == seq_ends_with(s@, suffix@),
{
    let x = str_chars(s);
    let y = str_chars(suffix);
    chars_end_with(&x, &y)
}

/// Whether `s` starts with `prefix`.
pub fn str_starts_with(s: &str, prefix: &str) -> (r: bool)
    ensures
        r == seq_starts_with(s@, prefix@),
{
    let x = str_chars(s);
    let y = str_chars(prefix);
    chars_start_with(&x, &y)
}

/// Splitting always gives at least one piece.
pub proof fn lemma_split_nonempty(s: Seq<char>, c: char)
    ensures
        split_char(s, c).len() >= 1,
{
}

/// The items with `sep` between each two (`[&str]::join`).
pub open spec fn join_with(items: Seq<Seq<char>>, sep: Seq<char>) -> Seq<char>
    decreases items.len(),
{
    if items.len() == 0 {
        Seq::empty()
    } else if items.len() == 1 {
        items[0]
    } else {
        join_with(items.drop_last(), sep) + sep + items.last()
    }
}

/// The texts of a list of strings.
pub open spec fn texts(v: Seq<String>) -> Seq<Seq<char>> {
    v.map_values(|s: String| s@)
}

/// `items.join(sep)`.
pub fn join_strings(items: &Vec<String>, sep: &str) -> (r: String)
    ensures
        r@ == join_with(texts(items@), sep@),
{
    let mut buf: Vec<char> = Vec::new();
    let mut i: usize = 0;
    while i < items.len()
        invariant
            i <= items.len(),
            buf@ == join_with(texts(items@).subrange(0, i as int), sep@),
        decreases items.len() - i,
    {
        let ghost prev = texts(items@).subrange(0, i as int);
        let ghost next = texts(items@).subrange(0, i + 1);
        assert(next.drop_last() =~= prev);
        if i > 0 {
            push_text(&mut buf, sep);
        } else {
            assert(prev.len() == 0);
        }
        push_text(&mut buf, items[i].as_str());
        i = i + 1;
        assert(buf@ =~= join_with(next, sep@));
    }
    assert(texts(items@).subrange(0, items@.len() as int) =~= texts(items@));
    string_from_chars(&buf)
}

} // verus!
