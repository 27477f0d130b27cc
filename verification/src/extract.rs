//! Key-value extraction out of semi-structured strings: locate the first
//! occurrence of a literal key, take the text up to the next `;` (or the end),
//! trim surrounding whitespace, and parse the result into the requested type.
//!
//! A key is matched as a raw substring, so the caller includes the trailing
//! separator in it (`"upload="`, not `"upload"`). Absence of the key, and text
//! that the requested type cannot parse, are both reported as `None`: absence
//! is an expected outcome here, not a fault.

use vstd::prelude::*;

use crate::digits::{usize_parses, usize_value, parse_usize};

verus! {

/// A character counts as whitespace for trimming purposes: the ASCII
/// whitespace characters.
pub open spec fn is_ws(c: char) -> bool {
    c == ' ' || c == '\t' || c == '\n' || c == '\r' || c == '\x0c'
}

/// The key `k` occurs in `t` starting at position `i`.
pub open spec fn occurs_at(t: Seq<char>, k: Seq<char>, i: int) -> bool {
    0 <= i && i + k.len() <= t.len() && t.subrange(i, i + k.len() as int) == k
}

/// The key `k` occurs somewhere in `t`.
pub open spec fn occurs(t: Seq<char>, k: Seq<char>) -> bool {
    exists|i: int| occurs_at(t, k, i)
}

/// Position `i` is the first occurrence of `k` in `t`.
pub open spec fn is_first_occurrence(t: Seq<char>, k: Seq<char>, i: int) -> bool {
    occurs_at(t, k, i) && forall|j: int| 0 <= j < i ==> !occurs_at(t, k, j)
}

/// The position of the first occurrence of `k` in `t`.
pub open spec fn first_occurrence(t: Seq<char>, k: Seq<char>) -> int {
    choose|i: int| is_first_occurrence(t, k, i)
}

/// At most one position is the first occurrence.
pub proof fn lemma_first_occurrence_unique(t: Seq<char>, k: Seq<char>, i: int)
    requires
        is_first_occurrence(t, k, i),
    ensures
        first_occurrence(t, k) == i,
{
    let j = first_occurrence(t, k);
    assert(is_first_occurrence(t, k, j));
    if j < i {
        assert(!occurs_at(t, k, j));
    }
    if i < j {
        assert(!occurs_at(t, k, i));
    }
}

/// Position `j` holds the first `;` of `s`.
pub open spec fn is_first_semi(s: Seq<char>, j: int) -> bool {
    0 <= j < s.len() && s[j] == ';' && forall|m: int| 0 <= m < j ==> s[m] != ';'
}

/// The text of `s` up to (not including) its first `;`, or all of `s` when it
/// has none.
pub open spec fn before_first_semi(s: Seq<char>) -> Seq<char> {
    if exists|j: int| is_first_semi(s, j) {
        s.subrange(0, choose|j: int| is_first_semi(s, j))
    } else {
        s
    }
}

/// At most one position holds the first `;`.
pub proof fn lemma_first_semi_unique(s: Seq<char>, j: int)
    requires
        is_first_semi(s, j),
    ensures
        before_first_semi(s) == s.subrange(0, j),
{
    let m = choose|m: int| is_first_semi(s, m);
    assert(is_first_semi(s, m));
    if m < j {
        assert(s[m] != ';');
    }
    if j < m {
        assert(s[j] != ';');
    }
}

/// `s` with leading whitespace removed.
pub open spec fn trim_start_spec(s: Seq<char>) -> Seq<char>
    decreases s.len(),
{
    if s.len() > 0 && is_ws(s[0]) {
        trim_start_spec(s.drop_first())
    } else {
        s
    }
}

/// `s` with trailing whitespace removed.
pub open spec fn trim_end_spec(s: Seq<char>) -> Seq<char>
    decreases s.len(),
{
    if s.len() > 0 && is_ws(s.last()) {
        trim_end_spec(s.drop_last())
    } else {
        s
    }
}

/// `s` with surrounding whitespace removed.
pub open spec fn trimmed(s: Seq<char>) -> Seq<char> {
    trim_end_spec(trim_start_spec(s))
}

/// The text that extraction with key `k` finds in `t`: the trimmed text
/// between the first occurrence of `k` and the next `;` (or the end), or
/// nothing when `k` does not occur in `t`.
pub open spec fn extracted(t: Seq<char>, k: Seq<char>) -> Option<Seq<char>> {
    if occurs(t, k) {
        let rest = t.subrange(first_occurrence(t, k) + k.len() as int, t.len() as int);
        Some(trimmed(before_first_semi(rest)))
    } else {
        None
    }
}

/// `k` occurs at `i` in `t` when the characters match pointwise there.
proof fn lemma_occurs_at_pointwise(t: Seq<char>, k: Seq<char>, i: int)
    requires
        0 <= i,
        i + k.len() <= t.len(),
        forall|j: int| 0 <= j < k.len() ==> t[i + j] == #[trigger] k[j],
    ensures
        occurs_at(t, k, i),
{
    assert(t.subrange(i, i + k.len() as int) =~= k);
}

/// Whether `key` occurs in `target` at position `i`.
fn matches_at(target: &str, key: &str, i: usize) -> (r: bool)
    requires
        i + key@.len() <= target@.len(),
        target@.len() <= usize::MAX,
    ensures
        r == occurs_at(target@, key@, i as int),
{
    let klen = key.unicode_len();
    let mut j: usize = 0;
    while j < klen
        invariant
            0 <= j <= klen,
            klen == key@.len(),
            i + klen <= target@.len(),
            target@.len() <= usize::MAX,
            forall|m: int| 0 <= m < j ==> target@[i + m] == #[trigger] key@[m],
        decreases klen - j,
    {
        let tc = target.get_char(i + j);
        let kc = key.get_char(j);
        if tc != kc {
            proof {
                let sub = target@.subrange(i as int, i + key@.len() as int);
                assert(sub[j as int] != key@[j as int]);
            }
            return false;
        }
        j = j + 1;
    }
    proof {
        lemma_occurs_at_pointwise(target@, key@, i as int);
    }
    true
}

/// The position of the first occurrence of `key` in `target`, if any.
fn find_first(target: &str, key: &str) -> (r: Option<usize>)
    ensures
        match r {
            Some(i) => is_first_occurrence(target@, key@, i as int),
            None => !occurs(target@, key@),
        },
{
    let tlen = target.unicode_len();
    let klen = key.unicode_len();
    if klen > tlen {
        proof {
            assert(forall|i: int| !occurs_at(target@, key@, i));
        }
        return None;
    }
    if klen == 0 {
        proof {
            assert(target@.subrange(0, 0) =~= key@);
        }
        return Some(0);
    }
    let mut i: usize = 0;
    while i <= tlen - klen
        invariant
            0 <= i <= tlen - klen + 1,
            1 <= klen <= tlen,
            tlen == target@.len(),
            klen == key@.len(),
            forall|j: int| 0 <= j < i ==> !occurs_at(target@, key@, j),
        decreases tlen - klen + 1 - i,
    {
        if matches_at(target, key, i) {
            return Some(i);
        }
        i = i + 1;
    }
    proof {
        assert(forall|j: int| occurs_at(target@, key@, j) ==> j <= tlen - klen);
    }
    None
}

/// The position of the first occurrence of the character `c` in `s`, if any.
fn find_char(s: &str, c: char) -> (r: Option<usize>)
    ensures
        match r {
            Some(j) => 0 <= j < s@.len() && s@[j as int] == c && forall|m: int|
                0 <= m < j ==> s@[m] != c,
            None => forall|m: int| 0 <= m < s@.len() ==> s@[m] != c,
        },
{
    let len = s.unicode_len();
    let mut j: usize = 0;
    while j < len
        invariant
            0 <= j <= len,
            len == s@.len(),
            forall|m: int| 0 <= m < j ==> s@[m] != c,
        decreases len - j,
    {
        if s.get_char(j) == c {
            return Some(j);
        }
        j = j + 1;
    }
    None
}

/// `trim_start_spec` drops exactly the leading run of whitespace.
proof fn lemma_trim_start_at(s: Seq<char>, lo: int)
    requires
        0 <= lo <= s.len(),
        forall|m: int| 0 <= m < lo ==> is_ws(#[trigger] s[m]),
        lo < s.len() ==> !is_ws(s[lo]),
    ensures
        trim_start_spec(s) == s.subrange(lo, s.len() as int),
    decreases lo,
{
    if lo == 0 {
        assert(s.subrange(0, s.len() as int) =~= s);
    } else {
        let d = s.drop_first();
        assert(forall|m: int| 0 <= m < lo - 1 ==> is_ws(#[trigger] d[m]));
        lemma_trim_start_at(d, lo - 1);
        assert(d.subrange(lo - 1, d.len() as int) =~= s.subrange(lo, s.len() as int));
    }
}

/// `trim_end_spec` drops exactly the trailing run of whitespace.
proof fn lemma_trim_end_at(s: Seq<char>, hi: int)
    requires
        0 <= hi <= s.len(),
        forall|m: int| hi <= m < s.len() ==> is_ws(#[trigger] s[m]),
        hi > 0 ==> !is_ws(s[hi - 1]),
    ensures
        trim_end_spec(s) == s.subrange(0, hi),
    decreases s.len() - hi,
{
    if hi == s.len() {
        assert(s.subrange(0, hi) =~= s);
    } else {
        let d = s.drop_last();
        assert(forall|m: int| hi <= m < d.len() ==> is_ws(#[trigger] d[m]));
        lemma_trim_end_at(d, hi);
        assert(d.subrange(0, hi) =~= s.subrange(0, hi));
    }
}

/// Whether the character at position `i` of `s` counts as whitespace.
fn ws_at(s: &str, i: usize) -> (r: bool)
    requires
        i < s@.len(),
    ensures
        r == is_ws(s@[i as int]),
{
    let c = s.get_char(i);
    c == ' ' || c == '\t' || c == '\n' || c == '\r' || c == '\x0c'
}

/// Remove surrounding whitespace from `s`.
fn trim_str<'a>(s: &'a str) -> (r: &'a str)
    ensures
        r@ == trimmed(s@),
{
    let len = s.unicode_len();
    let mut lo: usize = 0;
    while lo < len && ws_at(s, lo)
        invariant
            0 <= lo <= len,
            len == s@.len(),
            forall|m: int| 0 <= m < lo ==> is_ws(#[trigger] s@[m]),
        decreases len - lo,
    {
        lo = lo + 1;
    }
    proof {
        lemma_trim_start_at(s@, lo as int);
    }
    let mut hi: usize = len;
    while hi > lo && ws_at(s, hi - 1)
        invariant
            lo <= hi <= len,
            len == s@.len(),
            forall|m: int| hi <= m < len ==> is_ws(#[trigger] s@[m]),
        decreases hi,
    {
        hi = hi - 1;
    }
    let r = s.substring_char(lo, hi);
    proof {
        let head = s@.subrange(lo as int, len as int);
        assert(trim_start_spec(s@) == head);
        assert(forall|m: int|
            hi - lo <= m < head.len() ==> is_ws(#[trigger] head[m]));
        if hi > lo {
            assert(head[hi - lo as int - 1] == s@[hi as int - 1]);
        }
        lemma_trim_end_at(head, hi - lo as int);
        assert(head.subrange(0, hi - lo as int) =~= s@.subrange(lo as int, hi as int));
    }
    r
}

/// A type a trimmed extraction segment can be parsed into.
pub trait ParseValue: View + Sized {
    /// Whether the text `s` parses as a value of this type.
    spec fn parses(s: Seq<char>) -> bool;

    /// The value the text `s` parses to, abstractly.
    spec fn parse_view(s: Seq<char>) -> Self::V;

    /// Parse the text `s`.
    fn parse(s: &str) -> (r: Option<Self>)
        ensures
            match r {
                None => !Self::parses(s@),
                Some(v) => Self::parses(s@) && v@ == Self::parse_view(s@),
            },
    ;
}

impl ParseValue for usize {
    open spec fn parses(s: Seq<char>) -> bool {
        usize_parses(s)
    }

    open spec fn parse_view(s: Seq<char>) -> usize {
        usize_value(s)
    }

    fn parse(s: &str) -> (r: Option<usize>) {
        parse_usize(s)
    }
}

impl ParseValue for String {
    open spec fn parses(s: Seq<char>) -> bool {
        true
    }

    open spec fn parse_view(s: Seq<char>) -> Seq<char> {
        s
    }

    fn parse(s: &str) -> (r: Option<String>) {
        Some(s.to_owned())
    }
}

/// Extract the value following the first occurrence of `key` in `target`,
/// up to the next `;` (or the end of `target`), trimmed and parsed as `T`.
/// A missing key and an unparseable value both yield `None`.
pub fn parse_str<T: ParseValue>(target: &str, key: &str) -> (r: Option<T>)
    ensures
        match extracted(target@, key@) {
            None => r is None,
            Some(seg) => match r {
                None => !T::parses(seg),
                Some(v) => T::parses(seg) && v@ == T::parse_view(seg),
            },
        },
{
    match find_first(target, key) {
        None => None,
        Some(i) => {
            proof {
                lemma_first_occurrence_unique(target@, key@, i as int);
            }
            let tlen = target.unicode_len();
            let klen = key.unicode_len();
            let start = i + klen;
            let rest = target.substring_char(start, tlen);
            let ghost rest_view = target@.subrange(
                first_occurrence(target@, key@) + key@.len() as int,
                target@.len() as int,
            );
            let seg = match find_char(rest, ';') {
                Some(j) => {
                    proof {
                        lemma_first_semi_unique(rest@, j as int);
                    }
                    rest.substring_char(0, j)
                },
                None => rest,
            };
            proof {
                assert(seg@ == before_first_semi(rest_view));
            }
            let value = trim_str(seg);
            T::parse(value)
        },
    }
}

/// When the key does not occur in the source string at all, extraction finds
/// nothing.
pub proof fn lemma_absent_key_not_found(t: Seq<char>, k: Seq<char>)
    requires
        !occurs(t, k),
    ensures
        extracted(t, k) is None,
{
}

/// A well-formed `key` `value` `;` fragment embedded anywhere in a larger
/// string — at the key's first occurrence, with no `;` inside the value —
/// is extracted as exactly that value, trimmed.
pub proof fn lemma_embedded_fragment(pre: Seq<char>, k: Seq<char>, v: Seq<char>, post: Seq<char>)
    requires
        is_first_occurrence(pre + k + v + seq![';'] + post, k, pre.len() as int),
        forall|j: int| 0 <= j < v.len() ==> #[trigger] v[j] != ';',
    ensures
        extracted(pre + k + v + seq![';'] + post, k) == Some(trimmed(v)),
{
    let t = pre + k + v + seq![';'] + post;
    lemma_first_occurrence_unique(t, k, pre.len() as int);
    let rest = t.subrange(first_occurrence(t, k) + k.len() as int, t.len() as int);
    assert(rest =~= v + seq![';'] + post);
    assert(rest[v.len() as int] == ';');
    assert(forall|m: int| 0 <= m < v.len() ==> rest[m] == #[trigger] v[m]);
    assert(is_first_semi(rest, v.len() as int));
    lemma_first_semi_unique(rest, v.len() as int);
    assert(rest.subrange(0, v.len() as int) =~= v);
}

} // verus!
