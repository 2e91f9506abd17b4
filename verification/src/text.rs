//! Character-level text helpers shared by the string-building modules.
//!
//! Text is handled as sequences of Unicode scalar values: positions are
//! character positions, so every slice boundary is a character boundary.

use vstd::prelude::*;

verus! {

/// The characters of `s`, in order.
pub fn chars_of(s: &str) -> (v: Vec<char>)
    ensures
        v@ == s@,
{
    let mut v: Vec<char> = Vec::new();
    for c in it: s.chars()
        invariant
            v@ == it.seq().take(it.index() as int),
            it.seq() == s@,
    {
        v.push(c);
    }
    v
}

/// Appends one character to a `String` (`String::push`).
#[verifier::external_body]
pub(crate) fn push_char(s: &mut String, c: char)
    ensures
        final(s)@ == old(s)@.push(c),
{
    s.push(c);
}

/// Appends all of `v` to `s`.
pub fn push_chars(s: &mut String, v: &[char])
    ensures
        final(s)@ == old(s)@ + v@,
{
    let mut i: usize = 0;
    while i < v.len()
        invariant
            i <= v@.len(),
            s@ == old(s)@ + v@.take(i as int),
        decreases v@.len() - i,
    {
        assert(v@.take(i + 1) =~= v@.take(i as int).push(v@[i as int]));
        push_char(s, v[i]);
        i = i + 1;
    }
    assert(v@.take(v@.len() as int) =~= v@);
}

/// Appends all characters of `t` to `s`.
pub fn push_str(s: &mut String, t: &str)
    ensures
        final(s)@ == old(s)@ + t@,
{
    let v = chars_of(t);
    push_chars(s, &v);
}

/// A `String` holding exactly the characters of `v`.
pub fn string_of(v: &[char]) -> (s: String)
    ensures
        s@ == v@,
{
    let mut s = String::new();
    push_chars(&mut s, v);
    assert(Seq::<char>::empty() + v@ =~= v@);
    s
}

/// The characters `v[from..to]`.
pub fn slice_chars(v: &[char], from: usize, to: usize) -> (r: Vec<char>)
    requires
        from <= to <= v@.len(),
    ensures
        r@ == v@.subrange(from as int, to as int),
{
    let mut r: Vec<char> = Vec::new();
    let mut i = from;
    while i < to
        invariant
            from <= i <= to <= v@.len(),
            r@ == v@.subrange(from as int, i as int),
        decreases to - i,
    {
        r.push(v[i]);
        i = i + 1;
        assert(r@ =~= v@.subrange(from as int, i as int));
    }
    r
}

/// Appends `b` to the vector `a`.
pub fn extend_chars(a: &mut Vec<char>, b: &[char])
    ensures
        final(a)@ == old(a)@ + b@,
{
    let mut i: usize = 0;
    while i < b.len()
        invariant
            i <= b@.len(),
            a@ == old(a)@ + b@.take(i as int),
        decreases b@.len() - i,
    {
        a.push(b[i]);
        i = i + 1;
        assert(a@ =~= old(a)@ + b@.take(i as int));
    }
    assert(b@.take(b@.len() as int) =~= b@);
}

/// `needle` occurs in `hay` starting at position `i`.
pub open spec fn matches_at(hay: Seq<char>, needle: Seq<char>, i: int) -> bool {
    0 <= i && i + needle.len() <= hay.len() && hay.subrange(i, i + needle.len()) == needle
}

/// The first position `>= from` at which `needle` occurs in `hay`.
pub open spec fn find_from(hay: Seq<char>, needle: Seq<char>, from: int) -> Option<int>
    decreases hay.len() + 1 - from,
{
    if from < 0 || from + needle.len() > hay.len() {
        None
    } else if matches_at(hay, needle, from) {
        Some(from)
    } else {
        find_from(hay, needle, from + 1)
    }
}

/// What `find_from` returns is a match, no earlier match exists, and
/// `None` means there is no match at or after `from`.
pub proof fn lemma_find_from(hay: Seq<char>, needle: Seq<char>, from: int)
    requires
        from >= 0,
    ensures
        find_from(hay, needle, from) matches Some(i) ==> from <= i && matches_at(hay, needle, i)
            && forall|j: int| from <= j < i ==> !matches_at(hay, needle, j),
        find_from(hay, needle, from) is None ==> forall|j: int|
            from <= j ==> !matches_at(hay, needle, j),
    decreases hay.len() + 1 - from,
{
    if from + needle.len() > hay.len() {
    } else if matches_at(hay, needle, from) {
    } else {
        lemma_find_from(hay, needle, from + 1);
    }
}

/// `needle` occurs in `hay` at position `i` (executable check).
pub fn matches_at_exec(hay: &[char], needle: &[char], i: usize) -> (b: bool)
    ensures
        b == matches_at(hay@, needle@, i as int),
{
    if needle.len() > hay.len() || i > hay.len() - needle.len() {
        return false;
    }
    let mut k: usize = 0;
    while k < needle.len()
        invariant
            i + needle.len() <= hay.len(),
            i + needle@.len() <= hay@.len(),
            k <= needle@.len(),
            forall|j: int| 0 <= j < k ==> hay@[i + j] == needle@[j],
        decreases needle@.len() - k,
    {
        if hay[i + k] != needle[k] {
            assert(hay@.subrange(i as int, i + needle@.len())[k as int] != needle@[k as int]);
            return false;
        }
        k = k + 1;
    }
    assert(hay@.subrange(i as int, i + needle@.len()) =~= needle@);
    true
}

/// The first position `>= from` at which `needle` occurs in `hay`.
pub fn find_chars(hay: &[char], needle: &[char], from: usize) -> (r: Option<usize>)
    ensures
        match r {
            Some(i) => find_from(hay@, needle@, from as int) == Some(i as int),
            None => find_from(hay@, needle@, from as int) is None,
        },
{
    if needle.len() == 0 {
        if from <= hay.len() {
            assert(hay@.subrange(from as int, from as int) =~= needle@);
            return Some(from);
        }
        return None;
    }
    let mut i = from;
    while i <= hay.len() && needle.len() <= hay.len() - i
        invariant
            needle@.len() > 0,
            from <= i,
            find_from(hay@, needle@, from as int) == find_from(hay@, needle@, i as int),
        decreases hay@.len() + 1 - i,
    {
        if matches_at_exec(hay, needle, i) {
            return Some(i);
        }
        i = i + 1;
    }
    None
}

/// `prefix` is a prefix of `s`.
pub open spec fn starts_with(s: Seq<char>, prefix: Seq<char>) -> bool {
    prefix.len() <= s.len() && s.subrange(0, prefix.len() as int) == prefix
}

/// `suffix` is a suffix of `s`.
pub open spec fn ends_with(s: Seq<char>, suffix: Seq<char>) -> bool {
    suffix.len() <= s.len() && s.subrange(s.len() - suffix.len(), s.len() as int) == suffix
}

pub fn starts_with_exec(s: &[char], prefix: &[char]) -> (b: bool)
    ensures
        b == starts_with(s@, prefix@),
{
    let r = matches_at_exec(s, prefix, 0);
    r
}

pub fn ends_with_exec(s: &[char], suffix: &[char]) -> (b: bool)
    ensures
        b == ends_with(s@, suffix@),
{
    if suffix.len() > s.len() {
        return false;
    }
    matches_at_exec(s, suffix, s.len() - suffix.len())
}

/// Every non-overlapping occurrence of `pat`, scanning left to right,
/// replaced by `rep` (the semantics of `str::replace` for a non-empty
/// pattern).
pub open spec fn replace_all(s: Seq<char>, pat: Seq<char>, rep: Seq<char>) -> Seq<char>
    decreases s.len(),
{
    if pat.len() == 0 {
        s
    } else {
        match find_from(s, pat, 0) {
            Some(i) => if 0 <= i && i + pat.len() <= s.len() {
                s.subrange(0, i) + rep + replace_all(s.subrange(i + pat.len(), s.len() as int), pat, rep)
            } else {
                s
            },
            None => s,
        }
    }
}

/// Replaces every non-overlapping occurrence of `pat` in `s` by `rep`.
pub fn replace_chars(s: &[char], pat: &[char], rep: &[char]) -> (r: Vec<char>)
    requires
        pat@.len() > 0,
    ensures
        r@ == replace_all(s@, pat@, rep@),
{
    let mut out: Vec<char> = Vec::new();
    let mut rest = slice_chars(s, 0, s.len());
    assert(rest@ =~= s@);
    loop
        invariant
            pat@.len() > 0,
            out@ + replace_all(rest@, pat@, rep@) == replace_all(s@, pat@, rep@),
        decreases rest@.len(),
    {
        match find_chars(&rest, pat, 0) {
            Some(i) => {
                proof {
                    lemma_find_from(rest@, pat@, 0);
                }
                assert(matches_at(rest@, pat@, i as int));
                assert(i + pat@.len() <= rest@.len());
                let end = rest.len();
                assert(i + pat.len() <= end);
                let head = slice_chars(&rest, 0, i);
                let tail = slice_chars(&rest, i + pat.len(), rest.len());
                let ghost old_out = out@;
                extend_chars(&mut out, &head);
                extend_chars(&mut out, rep);
                assert(old_out + replace_all(rest@, pat@, rep@) == out@ + replace_all(tail@, pat@, rep@));
                rest = tail;
            },
            None => {
                let ghost old_out = out@;
                extend_chars(&mut out, &rest);
                return out;
            },
        }
    }
}

/// `c` is Unicode `White_Space` (the characters `char::is_whitespace`
/// accepts).
pub open spec fn is_white(c: char) -> bool {
    ||| '\u{9}' <= c <= '\u{d}'
    ||| c == ' '
    ||| c == '\u{85}'
    ||| c == '\u{a0}'
    ||| c == '\u{1680}'
    ||| '\u{2000}' <= c <= '\u{200a}'
    ||| c == '\u{2028}'
    ||| c == '\u{2029}'
    ||| c == '\u{202f}'
    ||| c == '\u{205f}'
    ||| c == '\u{3000}'
}

pub fn is_white_exec(c: char) -> (b: bool)
    ensures
        b == is_white(c),
{
    ('\u{9}' <= c && c <= '\u{d}') || c == ' ' || c == '\u{85}' || c == '\u{a0}' || c == '\u{1680}'
        || ('\u{2000}' <= c && c <= '\u{200a}') || c == '\u{2028}' || c == '\u{2029}' || c
        == '\u{202f}' || c == '\u{205f}' || c == '\u{3000}'
}

/// `s` holds nothing but whitespace (so `s.trim()` is empty).
pub open spec fn all_white(s: Seq<char>) -> bool {
    forall|i: int| 0 <= i < s.len() ==> is_white(#[trigger] s[i])
}

pub fn all_white_exec(s: &[char]) -> (b: bool)
    ensures
        b == all_white(s@),
{
    let mut i: usize = 0;
    while i < s.len()
        invariant
            i <= s@.len(),
            forall|j: int| 0 <= j < i ==> is_white(#[trigger] s@[j]),
        decreases s@.len() - i,
    {
        if !is_white_exec(s[i]) {
            return false;
        }
        i = i + 1;
    }
    true
}

/// Character-wise equality of two sequences.
pub fn chars_eq(a: &[char], b: &[char]) -> (r: bool)
    ensures
        r == (a@ == b@),
{
    if a.len() != b.len() {
        return false;
    }
    let mut i: usize = 0;
    while i < a.len()
        invariant
            a@.len() == b@.len(),
            i <= a@.len(),
            forall|j: int| 0 <= j < i ==> a@[j] == b@[j],
        decreases a@.len() - i,
    {
        if a[i] != b[i] {
            return false;
        }
        i = i + 1;
    }
    assert(a@ =~= b@);
    true
}

} // verus!
