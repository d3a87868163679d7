//! Character-level helpers shared by the rest of the library: conversion
//! between `str`/`String` and character vectors, Unicode whitespace,
//! trimming and substring search, each with the specification it meets.
use vstd::prelude::*;

verus! {

broadcast use vstd::string::group_string_axioms;

/// Appends one character to a `String` (std `String::push`).
/// Trusted: the string afterwards is the old string followed by `c`.
#[verifier::external_body]
pub(crate) fn push_char(s: &mut String, c: char)
    ensures
        final(s)@ == old(s)@.push(c),
{
    s.push(c);
}

/// The characters of `s`, in order.
pub fn chars_of(s: &str) -> (v: Vec<char>)
    ensures
        v@ == s@,
{
    let mut v: Vec<char> = Vec::new();
    for c in it: s.chars()
        invariant
            v@ == it.seq().take(it.index() as int),
            it.seq() == s@,
    {
        v.push(c);
    }
    v
}

/// A `String` holding exactly the characters of `v`.
pub fn string_of(v: &[char]) -> (s: String)
    ensures
        s@ == v@,
{
    let mut s = String::new();
    let n = v.len();
    for i in 0..n
        invariant
            n == v@.len(),
            s@ == v@.take(i as int),
    {
        push_char(&mut s, v[i]);
        assert(v@.take(i + 1) =~= v@.take(i as int).push(v@[i as int]));
    }
    assert(v@.take(n as int) =~= v@);
    s
}

/// The characters `v[from..to]` as a new vector.
pub fn sub_vec(v: &[char], from: usize, to: usize) -> (r: Vec<char>)
    requires
        from <= to <= v@.len(),
    ensures
        r@ == v@.subrange(from as int, to as int),
{
    let mut r: Vec<char> = Vec::new();
    for i in from..to
        invariant
            from <= to <= v@.len(),
            r@ == v@.subrange(from as int, i as int),
    {
        r.push(v[i]);
        assert(v@.subrange(from as int, i + 1) =~= v@.subrange(from as int, i as int).push(
            v@[i as int],
        ));
    }
    r
}

/// `a` followed by `b`.
pub fn concat_chars(a: &[char], b: &[char]) -> (r: Vec<char>)
    ensures
        r@ == a@ + b@,
{
    let mut r = sub_vec(a, 0, a.len());
    let n = b.len();
    for i in 0..n
        invariant
            n == b@.len(),
            r@ == a@ + b@.take(i as int),
    {
        r.push(b[i]);
        assert(a@ + b@.take(i + 1) =~= (a@ + b@.take(i as int)).push(b@[i as int]));
    }
    assert(b@.take(n as int) =~= b@);
    assert(a@.subrange(0, a@.len() as int) =~= a@);
    r
}

/// Whether two character sequences are equal.
pub fn chars_eq(a: &[char], b: &[char]) -> (r: bool)
    ensures
        r == (a@ == b@),
{
    if a.len() != b.len() {
        return false;
    }
    let n = a.len();
    for i in 0..n
        invariant
            n == a@.len(),
            n == b@.len(),
            forall|j: int| 0 <= j < i ==> a@[j] == b@[j],
    {
        if a[i] != b[i] {
            return false;
        }
    }
    assert(a@ =~= b@);
    true
}

/// The Unicode `White_Space` property, as `char::is_whitespace` documents it.
pub open spec fn is_ws(c: char) -> bool {
    ||| ('\u{9}' <= c && c <= '\u{d}')
    ||| c == ' '
    ||| c == '\u{85}'
    ||| c == '\u{a0}'
    ||| c == '\u{1680}'
    ||| ('\u{2000}' <= c && c <= '\u{200a}')
    ||| c == '\u{2028}'
    ||| c == '\u{2029}'
    ||| c == '\u{202f}'
    ||| c == '\u{205f}'
    ||| c == '\u{3000}'
}

/// Whether `c` is Unicode whitespace.
pub fn is_whitespace(c: char) -> (r: bool)
    ensures
        r == is_ws(c),
{
    ('\u{9}' <= c && c <= '\u{d}') || c == ' ' || c == '\u{85}' || c == '\u{a0}' || c
        == '\u{1680}' || ('\u{2000}' <= c && c <= '\u{200a}') || c == '\u{2028}' || c
        == '\u{2029}' || c == '\u{202f}' || c == '\u{205f}' || c == '\u{3000}'
}

/// What a trimming operation removes: whitespace, or one given character.
#[derive(Clone, Copy)]
pub enum Trim {
    Whitespace,
    Char(char),
}

pub open spec fn trims(t: Trim, c: char) -> bool {
    match t {
        Trim::Whitespace => is_ws(c),
        Trim::Char(x) => c == x,
    }
}

fn trims_exec(t: Trim, c: char) -> (r: bool)
    ensures
        r == trims(t, c),
{
    match t {
        Trim::Whitespace => is_whitespace(c),
        Trim::Char(x) => c == x,
    }
}

/// `s` without its leading characters that `t` removes.
pub open spec fn trim_start_by(s: Seq<char>, t: Trim) -> Seq<char>
    decreases s.len(),
{
    if s.len() > 0 && trims(t, s[0]) {
        trim_start_by(s.drop_first(), t)
    } else {
        s
    }
}

/// `s` without its trailing characters that `t` removes.
pub open spec fn trim_end_by(s: Seq<char>, t: Trim) -> Seq<char>
    decreases s.len(),
{
    if s.len() > 0 && trims(t, s.last()) {
        trim_end_by(s.drop_last(), t)
    } else {
        s
    }
}

/// `s` without leading and trailing characters that `t` removes.
pub open spec fn trim_by(s: Seq<char>, t: Trim) -> Seq<char> {
    trim_end_by(trim_start_by(s, t), t)
}

/// `str::trim`: `s` without leading and trailing whitespace.
pub open spec fn trim(s: Seq<char>) -> Seq<char> {
    trim_by(s, Trim::Whitespace)
}

/// The first index at or after `lo` (and before `hi`) whose character `t`
/// does not remove, together with the proof that trimming from there gives
/// the same result.
fn skip_start(s: &[char], t: Trim, lo: usize, hi: usize) -> (i: usize)
    requires
        lo <= hi <= s@.len(),
    ensures
        lo <= i <= hi,
        trim_start_by(s@.subrange(lo as int, hi as int), t) == s@.subrange(i as int, hi as int),
{
    let mut i = lo;
    while i < hi && trims_exec(t, s[i])
        invariant
            lo <= i <= hi <= s@.len(),
            trim_start_by(s@.subrange(lo as int, hi as int), t) == trim_start_by(
                s@.subrange(i as int, hi as int),
                t,
            ),
        decreases hi - i,
    {
        assert(s@.subrange(i as int, hi as int).drop_first() =~= s@.subrange(i + 1, hi as int));
        i = i + 1;
    }
    i
}

/// The end index (at least `lo`, at most `hi`) after trailing characters
/// that `t` removes are dropped from `s[lo..hi]`.
fn skip_end(s: &[char], t: Trim, lo: usize, hi: usize) -> (j: usize)
    requires
        lo <= hi <= s@.len(),
    ensures
        lo <= j <= hi,
        trim_end_by(s@.subrange(lo as int, hi as int), t) == s@.subrange(lo as int, j as int),
{
    let mut j = hi;
    while j > lo && trims_exec(t, s[j - 1])
        invariant
            lo <= j <= hi <= s@.len(),
            trim_end_by(s@.subrange(lo as int, hi as int), t) == trim_end_by(
                s@.subrange(lo as int, j as int),
                t,
            ),
        decreases j - lo,
    {
        assert(s@.subrange(lo as int, j as int).drop_last() =~= s@.subrange(lo as int, j - 1));
        j = j - 1;
    }
    j
}

/// `s` with leading characters that `t` removes dropped.
pub fn trim_start_chars(s: &[char], t: Trim) -> (r: Vec<char>)
    ensures
        r@ == trim_start_by(s@, t),
{
    assert(s@.subrange(0, s@.len() as int) =~= s@);
    let i = skip_start(s, t, 0, s.len());
    sub_vec(s, i, s.len())
}

/// `s` with trailing characters that `t` removes dropped.
pub fn trim_end_chars(s: &[char], t: Trim) -> (r: Vec<char>)
    ensures
        r@ == trim_end_by(s@, t),
{
    assert(s@.subrange(0, s@.len() as int) =~= s@);
    let j = skip_end(s, t, 0, s.len());
    sub_vec(s, 0, j)
}

/// `s` with leading and trailing characters that `t` removes dropped.
pub fn trim_chars(s: &[char], t: Trim) -> (r: Vec<char>)
    ensures
        r@ == trim_by(s@, t),
{
    assert(s@.subrange(0, s@.len() as int) =~= s@);
    let i = skip_start(s, t, 0, s.len());
    let j = skip_end(s, t, i, s.len());
    sub_vec(s, i, j)
}

/// Whether `p` occurs in `s` starting at index `i`.
pub open spec fn occurs_at(s: Seq<char>, p: Seq<char>, i: int) -> bool {
    0 <= i && i + p.len() <= s.len() && s.subrange(i, i + p.len()) == p
}

/// The first index at or after `i` where `p` occurs in `s`.
pub open spec fn find_from(s: Seq<char>, p: Seq<char>, i: int) -> Option<int>
    decreases s.len() + 1 - i,
{
    if i < 0 || i + p.len() > s.len() {
        None
    } else if occurs_at(s, p, i) {
        Some(i)
    } else {
        find_from(s, p, i + 1)
    }
}

/// Whether `p` occurs anywhere in `s` (`str::contains`).
pub open spec fn contains(s: Seq<char>, p: Seq<char>) -> bool {
    find_from(s, p, 0) is Some
}

/// The first occurrence found from `i` is an occurrence, and none lies
/// between `i` and it; when there is none, `p` does not occur at or after `i`.
pub proof fn lemma_find_from(s: Seq<char>, p: Seq<char>, i: int)
    requires
        0 <= i,
    ensures
        find_from(s, p, i) matches Some(k) ==> i <= k && occurs_at(s, p, k) && forall|j: int|
            i <= j < k ==> !occurs_at(s, p, j),
        find_from(s, p, i) is None ==> forall|j: int| i <= j ==> !occurs_at(s, p, j),
    decreases s.len() + 1 - i,
{
    if i + p.len() > s.len() {
    } else if occurs_at(s, p, i) {
    } else {
        lemma_find_from(s, p, i + 1);
    }
}

fn occurs_at_exec(s: &[char], p: &[char], i: usize) -> (r: bool)
    ensures
        r == occurs_at(s@, p@, i as int),
{
    if i > s.len() || p.len() > s.len() - i {
        return false;
    }
    let n = p.len();
    for k in 0..n
        invariant
            n == p@.len(),
            i + n <= s.len(),
            s.len() == s@.len(),
            forall|j: int| 0 <= j < k ==> s@[i + j] == p@[j],
    {
        assert(k < n);
        if s[i + k] != p[k] {
            assert(s@.subrange(i as int, i + n)[k as int] != p@[k as int]);
            return false;
        }
    }
    assert(s@.subrange(i as int, i + n) =~= p@);
    true
}

/// The first index at or after `from` where `p` occurs in `s`.
pub fn find_chars(s: &[char], p: &[char], from: usize) -> (r: Option<usize>)
    ensures
        r matches Some(k) ==> find_from(s@, p@, from as int) == Some(k as int),
        r is None ==> find_from(s@, p@, from as int) is None,
{
    let mut i = from;
    if i > s.len() || p.len() > s.len() - i {
        return None;
    }
    let last = s.len() - p.len();
    while i < last
        invariant
            from <= i <= last,
            last + p@.len() == s@.len(),
            find_from(s@, p@, from as int) == find_from(s@, p@, i as int),
        decreases last - i,
    {
        if occurs_at_exec(s, p, i) {
            return Some(i);
        }
        i = i + 1;
    }
    if occurs_at_exec(s, p, i) {
        Some(i)
    } else {
        assert(find_from(s@, p@, i + 1) is None);
        None
    }
}

/// Whether `p` occurs anywhere in `s`.
pub fn contains_chars(s: &[char], p: &[char]) -> (r: bool)
    ensures
        r == contains(s@, p@),
{
    find_chars(s, p, 0).is_some()
}

/// Whether `p` is a prefix of `s`.
pub open spec fn starts_with(s: Seq<char>, p: Seq<char>) -> bool {
    p.len() <= s.len() && s.take(p.len() as int) == p
}

pub fn starts_with_chars(s: &[char], p: &[char]) -> (r: bool)
    ensures
        r == starts_with(s@, p@),
{
    let r = occurs_at_exec(s, p, 0);
    proof {
        if p@.len() <= s@.len() {
            assert(s@.subrange(0, p@.len() as int) =~= s@.take(p@.len() as int));
        }
    }
    r
}

/// ASCII lower-casing of one character (`char::to_ascii_lowercase`).
pub open spec fn ascii_lower(c: char) -> char {
    if 'A' <= c && c <= 'Z' {
        ((c as u32) + 32) as char
    } else {
        c
    }
}

/// ASCII lower-casing of a character sequence (`str::to_ascii_lowercase`).
pub open spec fn ascii_lower_seq(s: Seq<char>) -> Seq<char> {
    s.map_values(|c: char| ascii_lower(c))
}

pub fn to_ascii_lower(c: char) -> (r: char)
    ensures
        r == ascii_lower(c),
{
    if 'A' <= c && c <= 'Z' {
        let u: u8 = (c as u8) + 32;
        u as char
    } else {
        c
    }
}

pub fn to_ascii_lower_chars(s: &[char]) -> (r: Vec<char>)
    ensures
        r@ == ascii_lower_seq(s@),
{
    let mut r: Vec<char> = Vec::new();
    let n = s.len();
    for i in 0..n
        invariant
            n == s@.len(),
            r@ =~= ascii_lower_seq(s@.take(i as int)),
    {
        r.push(to_ascii_lower(s[i]));
    }
    assert(s@.take(n as int) =~= s@);
    r
}

/// The views of a vector of character vectors.
pub open spec fn views(v: Seq<Vec<char>>) -> Seq<Seq<char>> {
    v.map_values(|x: Vec<char>| x@)
}

/// `str::split` on one delimiter character: the pieces between
/// delimiters, always at least one.
pub open spec fn split_char(s: Seq<char>, d: char) -> Seq<Seq<char>>
    decreases s.len(),
{
    if s.len() == 0 {
        seq![Seq::empty()]
    } else {
        let prev = split_char(s.drop_last(), d);
        if s.last() == d {
            prev.push(Seq::empty())
        } else {
            prev.update(prev.len() - 1, prev.last().push(s.last()))
        }
    }
}

pub proof fn lemma_split_char_nonempty(s: Seq<char>, d: char)
    ensures
        split_char(s, d).len() >= 1,
    decreases s.len(),
{
    if s.len() > 0 {
        lemma_split_char_nonempty(s.drop_last(), d);
    }
}

/// Splits `s` at every occurrence of `d`.
pub fn split_chars(s: &[char], d: char) -> (r: Vec<Vec<char>>)
    ensures
        views(r@) == split_char(s@, d),
{
    let mut pieces: Vec<Vec<char>> = Vec::new();
    let mut cur: Vec<char> = Vec::new();
    let n = s.len();
    for i in 0..n
        invariant
            n == s@.len(),
            split_char(s@.take(i as int), d) == views(pieces@).push(cur@),
    {
        let c = s[i];
        proof {
            assert(s@.take(i + 1).drop_last() =~= s@.take(i as int));
            lemma_split_char_nonempty(s@.take(i as int), d);
        }
        if c == d {
            let done = cur;
            pieces.push(done);
            cur = Vec::new();
            assert(views(pieces@) =~= views(pieces@.drop_last()).push(done@));
        } else {
            let ghost old_cur = cur@;
            cur.push(c);
            assert(views(pieces@).push(old_cur).update(pieces@.len() as int, old_cur.push(c))
                =~= views(pieces@).push(cur@));
        }
    }
    assert(s@.take(n as int) =~= s@);
    let ghost before = pieces@;
    pieces.push(cur);
    assert(views(pieces@) =~= views(before).push(cur@));
    pieces
}

/// `str::split_once` on one character: the parts before and after the
/// first occurrence of `d`.
pub open spec fn split_once_char(s: Seq<char>, d: char) -> Option<(Seq<char>, Seq<char>)> {
    match find_from(s, seq![d], 0) {
        Some(i) => Some((s.take(i), s.skip(i + 1))),
        None => None,
    }
}

pub fn split_once_chars(s: &[char], d: char) -> (r: Option<(Vec<char>, Vec<char>)>)
    ensures
        match split_once_char(s@, d) {
            Some((a, b)) => r matches Some((x, y)) && x@ == a && y@ == b,
            None => r is None,
        },
{
    let pat = vec![d];
    assert(pat@ =~= seq![d]);
    match find_chars(s, pat.as_slice(), 0) {
        Some(i) => {
            proof {
                lemma_find_from(s@, pat@, 0);
                assert(occurs_at(s@, pat@, i as int));
            }
            assert(i < s.len());
            let a = sub_vec(s, 0, i);
            let b = sub_vec(s, i + 1, s.len());
            assert(a@ =~= s@.take(i as int));
            assert(b@ =~= s@.skip(i + 1));
            Some((a, b))
        },
        None => None,
    }
}

/// `parts` joined with `sep` between consecutive parts.
pub open spec fn join(parts: Seq<Seq<char>>, sep: Seq<char>) -> Seq<char>
    decreases parts.len(),
{
    if parts.len() == 0 {
        Seq::empty()
    } else if parts.len() == 1 {
        parts[0]
    } else {
        join(parts.drop_last(), sep) + sep + parts.last()
    }
}

/// Joins `parts` with `sep` between consecutive parts.
pub fn join_chars(parts: &Vec<Vec<char>>, sep: &[char]) -> (r: Vec<char>)
    ensures
        r@ == join(views(parts@), sep@),
{
    let mut r: Vec<char> = Vec::new();
    let n = parts.len();
    for i in 0..n
        invariant
            n == parts@.len(),
            r@ == join(views(parts@.take(i as int)), sep@),
    {
        assert(views(parts@.take(i + 1)).drop_last() =~= views(parts@.take(i as int)));
        if i == 0 {
            r = sub_vec(parts[i].as_slice(), 0, parts[i].len());
            assert(r@ =~= parts@[0]@);
        } else {
            let with_sep = concat_chars(r.as_slice(), sep);
            r = concat_chars(with_sep.as_slice(), parts[i].as_slice());
        }
    }
    assert(parts@.take(n as int) =~= parts@);
    r
}

/// `d` does not occur in `s`.
pub open spec fn lacks(s: Seq<char>, d: char) -> bool {
    forall|i: int| 0 <= i < s.len() ==> s[i] != d
}

/// `s` has no leading or trailing whitespace.
pub open spec fn is_trimmed(s: Seq<char>) -> bool {
    s.len() > 0 ==> !is_ws(s[0]) && !is_ws(s.last())
}

/// Trimming the start drops exactly the leading run that `t` removes.
pub proof fn lemma_trim_start(s: Seq<char>, t: Trim) -> (j: int)
    ensures
        0 <= j <= s.len(),
        trim_start_by(s, t) == s.subrange(j, s.len() as int),
        j < s.len() ==> !trims(t, s[j]),
        forall|i: int| 0 <= i < j ==> trims(t, #[trigger] s[i]),
    decreases s.len(),
{
    if s.len() > 0 && trims(t, s[0]) {
        let j0 = lemma_trim_start(s.drop_first(), t);
        assert(s.drop_first().subrange(j0, s.drop_first().len() as int) =~= s.subrange(
            j0 + 1,
            s.len() as int,
        ));
        assert forall|i: int| 0 <= i < j0 + 1 implies trims(t, #[trigger] s[i]) by {
            if i > 0 {
                assert(s[i] == s.drop_first()[i - 1]);
            }
        }
        j0 + 1
    } else {
        assert(s.subrange(0, s.len() as int) =~= s);
        0
    }
}

/// Trimming the end drops exactly the trailing run that `t` removes.
pub proof fn lemma_trim_end(s: Seq<char>, t: Trim) -> (j: int)
    ensures
        0 <= j <= s.len(),
        trim_end_by(s, t) == s.subrange(0, j),
        j > 0 ==> !trims(t, s[j - 1]),
        forall|i: int| j <= i < s.len() ==> trims(t, #[trigger] s[i]),
    decreases s.len(),
{
    if s.len() > 0 && trims(t, s.last()) {
        let j0 = lemma_trim_end(s.drop_last(), t);
        assert(s.drop_last().subrange(0, j0) =~= s.subrange(0, j0));
        assert forall|i: int| j0 <= i < s.len() implies trims(t, #[trigger] s[i]) by {
            if i < s.len() - 1 {
                assert(s[i] == s.drop_last()[i]);
            }
        }
        j0
    } else {
        assert(s.subrange(0, s.len() as int) =~= s);
        s.len() as int
    }
}

/// `trim(s)` is a contiguous part of `s` and has no whitespace at its ends.
pub proof fn lemma_trim_shape(s: Seq<char>) -> (ab: (int, int))
    ensures
        0 <= ab.0 <= ab.1 <= s.len(),
        trim(s) == s.subrange(ab.0, ab.1),
        is_trimmed(trim(s)),
{
    let a = lemma_trim_start(s, Trim::Whitespace);
    let mid = trim_start_by(s, Trim::Whitespace);
    let b = lemma_trim_end(mid, Trim::Whitespace);
    assert(mid.subrange(0, b) =~= s.subrange(a, a + b));
    let r = trim(s);
    if r.len() > 0 {
        assert(r[0] == s[a]);
        assert(r.last() == mid[b - 1]);
    }
    (a, a + b)
}

/// A text without whitespace at its ends is its own trim.
pub proof fn lemma_trimmed_fixed(s: Seq<char>)
    requires
        is_trimmed(s),
    ensures
        trim(s) == s,
{
    let a = lemma_trim_start(s, Trim::Whitespace);
    assert(a == 0);
    assert(s.subrange(0, s.len() as int) =~= s);
    let b = lemma_trim_end(s, Trim::Whitespace);
    assert(b == s.len());
}

/// A leading space does not change the trim.
pub proof fn lemma_trim_leading_space(x: Seq<char>)
    ensures
        trim(seq![' '] + x) == trim(x),
{
    let y = seq![' '] + x;
    assert(y.drop_first() =~= x);
}

/// A part of a text that lacks `d` lacks `d`.
pub proof fn lemma_lacks_subrange(s: Seq<char>, d: char, a: int, b: int)
    requires
        lacks(s, d),
        0 <= a <= b <= s.len(),
    ensures
        lacks(s.subrange(a, b), d),
{
    assert forall|i: int| 0 <= i < b - a implies s.subrange(a, b)[i] != d by {
        assert(s.subrange(a, b)[i] == s[a + i]);
    }
}

/// An occurrence at `m` with none between `i` and `m` is the one found.
pub proof fn lemma_find_first(s: Seq<char>, p: Seq<char>, i: int, m: int)
    requires
        0 <= i <= m,
        occurs_at(s, p, m),
        forall|j: int| i <= j < m ==> !occurs_at(s, p, j),
    ensures
        find_from(s, p, i) == Some(m),
    decreases m - i,
{
    if i < m {
        lemma_find_first(s, p, i + 1, m);
    }
}

/// `d` occurs at `i` exactly when `s[i]` is `d`.
pub proof fn lemma_occurs_char(s: Seq<char>, d: char, i: int)
    requires
        0 <= i < s.len(),
    ensures
        occurs_at(s, seq![d], i) == (s[i] == d),
{
    if s[i] == d {
        assert(s.subrange(i, i + 1) =~= seq![d]);
    } else {
        assert(s.subrange(i, i + 1)[0] != seq![d][0]);
    }
}

/// Splitting `a` followed by `d` and `b` (which lacks `d`) gives the pieces
/// of `a` and then `b`.
pub proof fn lemma_split_extend(x: Seq<char>, y: Seq<char>, d: char)
    requires
        lacks(y, d),
    ensures
        split_char(x + y, d) == split_char(x, d).update(
            split_char(x, d).len() - 1,
            split_char(x, d).last() + y,
        ),
    decreases y.len(),
{
    lemma_split_char_nonempty(x, d);
    if y.len() == 0 {
        assert(x + y =~= x);
        assert(split_char(x, d).last() + y =~= split_char(x, d).last());
        assert(split_char(x, d).update(split_char(x, d).len() - 1, split_char(x, d).last())
            =~= split_char(x, d));
    } else {
        let y0 = y.drop_last();
        assert(lacks(y0, d)) by {
            lemma_lacks_subrange(y, d, 0, y.len() - 1);
            assert(y.subrange(0, y.len() - 1) =~= y0);
        }
        lemma_split_extend(x, y0, d);
        assert((x + y).drop_last() =~= x + y0);
        assert((x + y).last() == y.last());
        assert(y.last() != d);
        let sx = split_char(x, d);
        let prev = split_char(x + y0, d);
        assert(prev == sx.update(sx.len() - 1, sx.last() + y0));
        assert(prev.len() == sx.len());
        assert(prev.last() == sx.last() + y0);
        assert((sx.last() + y0).push(y.last()) =~= sx.last() + y);
        assert(split_char(x + y, d) == prev.update(prev.len() - 1, prev.last().push(y.last())));
        assert(split_char(x + y, d) =~= sx.update(sx.len() - 1, sx.last() + y));
    }
}

/// Splitting a text at a delimiter followed by a part without it.
pub proof fn lemma_split_append(a: Seq<char>, b: Seq<char>, d: char)
    requires
        lacks(b, d),
    ensures
        split_char(a + seq![d] + b, d) == split_char(a, d).push(b),
{
    let ad = a + seq![d];
    assert(ad.drop_last() =~= a);
    lemma_split_extend(ad, b, d);
    let sa = split_char(a, d);
    assert(split_char(ad, d) == sa.push(Seq::empty()));
    assert(Seq::<char>::empty() + b =~= b);
    assert(sa.push(Seq::empty()).update(sa.len() as int, b) =~= sa.push(b));
}

/// A text without the delimiter is a single piece.
pub proof fn lemma_split_single(b: Seq<char>, d: char)
    requires
        lacks(b, d),
    ensures
        split_char(b, d) == seq![b],
{
    lemma_split_extend(Seq::empty(), b, d);
    assert(Seq::<char>::empty() + b =~= b);
    assert(seq![Seq::<char>::empty()].update(0, Seq::<char>::empty() + b) =~= seq![b]);
}

/// No piece of a split holds the delimiter.
pub proof fn lemma_split_pieces_lack(s: Seq<char>, d: char)
    ensures
        forall|i: int| 0 <= i < split_char(s, d).len() ==> lacks(#[trigger] split_char(s, d)[i], d),
    decreases s.len(),
{
    if s.len() > 0 {
        lemma_split_pieces_lack(s.drop_last(), d);
        lemma_split_char_nonempty(s.drop_last(), d);
    }
}

/// The first piece of a split is the text before the first delimiter.
pub proof fn lemma_split_first(a: Seq<char>, b: Seq<char>, d: char)
    requires
        lacks(a, d),
    ensures
        split_char(a + seq![d] + b, d).len() >= 2,
        split_char(a + seq![d] + b, d)[0] == a,
    decreases b.len(),
{
    if b.len() == 0 {
        let ad = a + seq![d];
        assert(ad + b =~= ad);
        assert(ad.drop_last() =~= a);
        lemma_split_single(a, d);
    } else {
        let b0 = b.drop_last();
        lemma_split_first(a, b0, d);
        assert((a + seq![d] + b).drop_last() =~= a + seq![d] + b0);
        lemma_split_char_nonempty(a + seq![d] + b0, d);
    }
}

} // verus!
