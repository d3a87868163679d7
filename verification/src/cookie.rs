//! The cookie cache that answers the hosting provider's challenge: one
//! `Cookie` header per site scope, merged one `name=value` pair at a time.
use vstd::prelude::*;
use crate::text::{
    ascii_lower_seq, chars_eq, chars_of, concat_chars, find_chars, find_from, is_trimmed, join,
    join_chars, lacks, lemma_find_first, lemma_find_from, lemma_lacks_subrange,
    lemma_occurs_char, lemma_split_append, lemma_split_char_nonempty, lemma_split_pieces_lack,
    lemma_split_single, lemma_trim_leading_space, lemma_trim_shape, lemma_trimmed_fixed,
    occurs_at, split_char, split_chars, split_once_char, split_once_chars, string_of, sub_vec,
    to_ascii_lower_chars, trim, trim_chars, trim_end_by, trim_end_chars, views, Trim,
};

verus! {

broadcast use vstd::string::group_string_axioms;

/// The base of the primary site, whose cookies serve as a fallback.
pub open spec fn primary_site_base() -> Seq<char> {
    "https://cschat.ccccocccc.cc"@
}

pub fn primary_site_base_str() -> (r: &'static str)
    ensures
        r@ == primary_site_base(),
{
    "https://cschat.ccccocccc.cc"
}

/// The scope of a base URL: the text before the first `/rpc/`, without
/// trailing slashes.
pub open spec fn spec_cookie_scope(base: Seq<char>) -> Seq<char> {
    let prefix = match find_from(base, "/rpc/"@, 0) {
        Some(i) => base.take(i),
        None => base,
    };
    trim_end_by(prefix, Trim::Char('/'))
}

/// The scope under which cookies for `base` are kept.
pub fn cookie_scope(base: &str) -> (r: String)
    ensures
        r@ == spec_cookie_scope(base@),
{
    let b = chars_of(base);
    let marker = chars_of("/rpc/");
    let prefix = match find_chars(b.as_slice(), marker.as_slice(), 0) {
        Some(i) => {
            proof {
                lemma_find_from(b@, marker@, 0);
            }
            let p = sub_vec(b.as_slice(), 0, i);
            assert(p@ =~= b@.take(i as int));
            p
        },
        None => b,
    };
    let trimmed = trim_end_chars(prefix.as_slice(), Trim::Char('/'));
    string_of(trimmed.as_slice())
}

/// One piece of a cookie header read as `name=value`, both trimmed;
/// `None` for a piece without `=`.
pub open spec fn cookie_part(piece: Seq<char>) -> Option<(Seq<char>, Seq<char>)> {
    match split_once_char(trim(piece), '=') {
        Some((k, v)) => Some((trim(k), trim(v))),
        None => None,
    }
}

/// The pairs that the pieces of a header give, in order.
pub open spec fn parts_to_pairs(pieces: Seq<Seq<char>>) -> Seq<(Seq<char>, Seq<char>)>
    decreases pieces.len(),
{
    if pieces.len() == 0 {
        Seq::empty()
    } else {
        let prev = parts_to_pairs(pieces.drop_last());
        match cookie_part(pieces.last()) {
            Some(p) => prev.push(p),
            None => prev,
        }
    }
}

/// The `name=value` pairs of a cookie header, split at `;`.
pub open spec fn cookie_pairs(entry: Seq<char>) -> Seq<(Seq<char>, Seq<char>)> {
    parts_to_pairs(split_char(entry, ';'))
}

/// `pairs` without those named `name`.
pub open spec fn drop_key(pairs: Seq<(Seq<char>, Seq<char>)>, name: Seq<char>) -> Seq<
    (Seq<char>, Seq<char>),
>
    decreases pairs.len(),
{
    if pairs.len() == 0 {
        pairs
    } else {
        let prev = drop_key(pairs.drop_last(), name);
        if pairs.last().0 == name {
            prev
        } else {
            prev.push(pairs.last())
        }
    }
}

/// `name=value`.
pub open spec fn pair_text(p: (Seq<char>, Seq<char>)) -> Seq<char> {
    p.0 + seq!['='] + p.1
}

/// The pairs written as a header: `a=1; b=2`.
pub open spec fn join_pairs(pairs: Seq<(Seq<char>, Seq<char>)>) -> Seq<char> {
    join(pairs.map_values(|p: (Seq<char>, Seq<char>)| pair_text(p)), "; "@)
}

/// The cookie name and value that merging `pair` would store, or `None`
/// when `pair` has no `=`, or its trimmed name is empty or `path` in any
/// ASCII case.
pub open spec fn merged_pair(pair: Seq<char>) -> Option<(Seq<char>, Seq<char>)> {
    match split_once_char(pair, '=') {
        None => None,
        Some((raw_name, raw_value)) => {
            let name = trim(raw_name);
            if name.len() == 0 || ascii_lower_seq(name) == "path"@ {
                None
            } else {
                Some((name, trim(raw_value)))
            }
        },
    }
}

/// The header kept for `scope` (empty when there is none).
pub open spec fn entry_of(jar: Map<Seq<char>, Seq<char>>, scope: Seq<char>) -> Seq<char> {
    if jar.contains_key(scope) {
        jar[scope]
    } else {
        Seq::empty()
    }
}

/// The cookie cache after merging `pair` for `base`: the scope's header
/// is rewritten with its pairs of the same name removed and the new pair
/// appended.
pub open spec fn spec_merge_cookie(jar: Map<Seq<char>, Seq<char>>, base: Seq<char>, pair: Seq<
    char,
>) -> Map<Seq<char>, Seq<char>> {
    match merged_pair(pair) {
        None => jar,
        Some((name, value)) => {
            let scope = spec_cookie_scope(base);
            let kept = drop_key(cookie_pairs(entry_of(jar, scope)), name);
            jar.insert(scope, join_pairs(kept.push((name, value))))
        },
    }
}

/// The header sent to `base`: its scope's header, else the primary site's.
pub open spec fn spec_cookie_header(jar: Map<Seq<char>, Seq<char>>, base: Seq<char>) -> Option<
    Seq<char>,
> {
    let scope = spec_cookie_scope(base);
    if jar.contains_key(scope) {
        Some(jar[scope])
    } else if jar.contains_key(primary_site_base()) {
        Some(jar[primary_site_base()])
    } else {
        None
    }
}

/// The cache after the `Set-Cookie` values of one response: for each value
/// (`None` for one that is not visible ASCII, which is skipped) the text
/// before its first `;`, trimmed, is merged.
pub open spec fn spec_remember_cookies(
    jar: Map<Seq<char>, Seq<char>>,
    base: Seq<char>,
    values: Seq<Option<Seq<char>>>,
) -> Map<Seq<char>, Seq<char>>
    decreases values.len(),
{
    if values.len() == 0 {
        jar
    } else {
        let prev = spec_remember_cookies(jar, base, values.drop_last());
        match values.last() {
            Some(v) => spec_merge_cookie(prev, base, trim(split_char(v, ';')[0])),
            None => prev,
        }
    }
}

/// Remembering a response's cookies rewrites only the scope of `base`:
/// every scope kept before is still kept, and every other scope is as it
/// was.
pub proof fn lemma_remember_keeps_scopes(
    jar: Map<Seq<char>, Seq<char>>,
    base: Seq<char>,
    values: Seq<Option<Seq<char>>>,
)
    ensures
        forall|k: Seq<char>|
            jar.contains_key(k) ==> #[trigger] spec_remember_cookies(jar, base, values).contains_key(k),
        forall|k: Seq<char>|
            k != spec_cookie_scope(base) ==> (#[trigger] spec_remember_cookies(
                jar,
                base,
                values,
            ).contains_key(k) == jar.contains_key(k) && entry_of(
                spec_remember_cookies(jar, base, values),
                k,
            ) == entry_of(jar, k)),
    decreases values.len(),
{
    if values.len() > 0 {
        let prev = spec_remember_cookies(jar, base, values.drop_last());
        lemma_remember_keeps_scopes(jar, base, values.drop_last());
        let after = spec_remember_cookies(jar, base, values);
        assert forall|k: Seq<char>| jar.contains_key(k) implies #[trigger] after.contains_key(k) by {
            assert(prev.contains_key(k));
        }
        assert forall|k: Seq<char>| k != spec_cookie_scope(base) implies (#[trigger] after.contains_key(
            k,
        ) == jar.contains_key(k) && entry_of(after, k) == entry_of(jar, k)) by {
            assert(prev.contains_key(k) == jar.contains_key(k));
            assert(entry_of(prev, k) == entry_of(jar, k));
        }
    }
}

/// The map that a list of distinct keys and their values stands for.
pub open spec fn entries_map(e: Seq<(String, String)>) -> Map<Seq<char>, Seq<char>>
    decreases e.len(),
{
    if e.len() == 0 {
        Map::empty()
    } else {
        entries_map(e.drop_last()).insert(e.last().0@, e.last().1@)
    }
}

pub open spec fn keys_distinct(e: Seq<(String, String)>) -> bool {
    forall|i: int, j: int| 0 <= i < j < e.len() ==> e[i].0@ != e[j].0@
}

proof fn lemma_entries_lookup(e: Seq<(String, String)>, i: int)
    requires
        keys_distinct(e),
        0 <= i < e.len(),
    ensures
        entries_map(e).contains_key(e[i].0@),
        entries_map(e)[e[i].0@] == e[i].1@,
    decreases e.len(),
{
    if i < e.len() - 1 {
        lemma_entries_lookup(e.drop_last(), i);
    }
}

proof fn lemma_entries_absent(e: Seq<(String, String)>, k: Seq<char>)
    requires
        forall|i: int| 0 <= i < e.len() ==> e[i].0@ != k,
    ensures
        !entries_map(e).contains_key(k),
    decreases e.len(),
{
    if e.len() > 0 {
        lemma_entries_absent(e.drop_last(), k);
    }
}

proof fn lemma_entries_update(e: Seq<(String, String)>, i: int, kv: (String, String))
    requires
        keys_distinct(e),
        0 <= i < e.len(),
        kv.0@ == e[i].0@,
    ensures
        entries_map(e.update(i, kv)) == entries_map(e).insert(kv.0@, kv.1@),
    decreases e.len(),
{
    let e2 = e.update(i, kv);
    if i == e.len() - 1 {
        assert(e2.drop_last() =~= e.drop_last());
        assert(entries_map(e2) =~= entries_map(e).insert(kv.0@, kv.1@));
    } else {
        assert(e2.drop_last() =~= e.drop_last().update(i, kv));
        lemma_entries_update(e.drop_last(), i, kv);
        assert(entries_map(e2) =~= entries_map(e).insert(kv.0@, kv.1@));
    }
}

/// Cookie headers kept per scope.
pub struct CookieJar {
    entries: Vec<(String, String)>,
}

impl View for CookieJar {
    type V = Map<Seq<char>, Seq<char>>;

    closed spec fn view(&self) -> Map<Seq<char>, Seq<char>> {
        entries_map(self.entries@)
    }
}

impl CookieJar {
    #[verifier::type_invariant]
    closed spec fn inv(self) -> bool {
        keys_distinct(self.entries@)
    }

    /// An empty cache.
    pub fn new() -> (r: CookieJar)
        ensures
            r@ == Map::<Seq<char>, Seq<char>>::empty(),
    {
        CookieJar { entries: Vec::new() }
    }

    /// The index of the entry for `scope`, if there is one.
    fn position(&self, scope: &String) -> (r: Option<usize>)
        ensures
            match r {
                Some(i) => i < self.entries@.len() && self.entries@[i as int].0@ == scope@,
                None => forall|j: int| 0 <= j < self.entries@.len() ==> self.entries@[j].0@ != scope@,
            },
    {
        let n = self.entries.len();
        for i in 0..n
            invariant
                n == self.entries@.len(),
                forall|j: int| 0 <= j < i ==> self.entries@[j].0@ != scope@,
        {
            if self.entries[i].0 == *scope {
                return Some(i);
            }
        }
        None
    }

    /// The header kept for `scope`.
    pub fn get(&self, scope: &String) -> (r: Option<String>)
        ensures
            match r {
                Some(v) => self@.contains_key(scope@) && v@ == self@[scope@],
                None => !self@.contains_key(scope@),
            },
    {
        proof {
            use_type_invariant(self);
        }
        match self.position(scope) {
            Some(i) => {
                proof {
                    lemma_entries_lookup(self.entries@, i as int);
                }
                Some(self.entries[i].1.clone())
            },
            None => {
                proof {
                    lemma_entries_absent(self.entries@, scope@);
                }
                None
            },
        }
    }

    /// Keeps `value` as the header for `scope`, replacing any earlier one.
    pub fn set(&mut self, scope: String, value: String)
        ensures
            final(self)@ == old(self)@.insert(scope@, value@),
    {
        proof {
            use_type_invariant(&*self);
        }
        let found = self.position(&scope);
        let ghost old_entries = self.entries@;
        let mut entries: Vec<(String, String)> = Vec::new();
        std::mem::swap(&mut entries, &mut self.entries);
        match found {
            Some(i) => {
                proof {
                    lemma_entries_update(old_entries, i as int, (scope, value));
                }
                entries.set(i, (scope, value));
                assert forall|a: int, b: int| 0 <= a < b < entries@.len() implies entries@[a].0@
                    != entries@[b].0@ by {
                    assert(old_entries[a].0@ != old_entries[b].0@);
                }
            },
            None => {
                entries.push((scope, value));
                assert forall|a: int, b: int| 0 <= a < b < entries@.len() implies entries@[a].0@
                    != entries@[b].0@ by {
                    if b < old_entries.len() {
                        assert(old_entries[a].0@ != old_entries[b].0@);
                    }
                }
                assert(entries@.drop_last() =~= old_entries);
            },
        }
        self.entries = entries;
    }
}

fn cookie_part_exec(piece: &[char]) -> (r: Option<(Vec<char>, Vec<char>)>)
    ensures
        match cookie_part(piece@) {
            Some((k, v)) => r matches Some((x, y)) && x@ == k && y@ == v,
            None => r is None,
        },
{
    let t = trim_chars(piece, Trim::Whitespace);
    match split_once_chars(t.as_slice(), '=') {
        Some((k, v)) => Some(
            (trim_chars(k.as_slice(), Trim::Whitespace), trim_chars(v.as_slice(), Trim::Whitespace)),
        ),
        None => None,
    }
}

fn pair_text_exec(k: &[char], v: &[char]) -> (r: Vec<char>)
    ensures
        r@ == pair_text((k@, v@)),
{
    let eq = vec!['='];
    let ke = concat_chars(k, eq.as_slice());
    assert(eq@ =~= seq!['=']);
    concat_chars(ke.as_slice(), v)
}

/// Merges one `name=value` pair into the header kept for the scope of
/// `base`: earlier pairs of that name are dropped and the pair is appended.
/// A pair without `=`, with an empty name or with the name `path` (in any
/// ASCII case) leaves the cache as it is.
pub fn merge_cookie(jar: &mut CookieJar, base: &str, cookie_pair: &str)
    ensures
        final(jar)@ == spec_merge_cookie(old(jar)@, base@, cookie_pair@),
{
    let pair = chars_of(cookie_pair);
    let (raw_name, raw_value) = match split_once_chars(pair.as_slice(), '=') {
        Some(x) => x,
        None => return ,
    };
    let name = trim_chars(raw_name.as_slice(), Trim::Whitespace);
    if name.len() == 0 {
        return ;
    }
    let lower = to_ascii_lower_chars(name.as_slice());
    let path = chars_of("path");
    if chars_eq(lower.as_slice(), path.as_slice()) {
        return ;
    }
    let value = trim_chars(raw_value.as_slice(), Trim::Whitespace);
    let scope = cookie_scope(base);
    let entry = match jar.get(&scope) {
        Some(e) => e,
        None => String::new(),
    };
    assert(entry@ == entry_of(old(jar)@, scope@));
    let entry_chars = chars_of(entry.as_str());
    let pieces = split_chars(entry_chars.as_slice(), ';');
    let ghost ps = views(pieces@);
    let mut texts: Vec<Vec<char>> = Vec::new();
    let n = pieces.len();
    for i in 0..n
        invariant
            n == pieces@.len(),
            ps == views(pieces@),
            views(texts@) == drop_key(parts_to_pairs(ps.take(i as int)), name@).map_values(
                |p: (Seq<char>, Seq<char>)| pair_text(p),
            ),
    {
        let ghost before = parts_to_pairs(ps.take(i as int));
        proof {
            assert(ps.take(i + 1).drop_last() =~= ps.take(i as int));
            assert(ps.take(i + 1).last() == pieces@[i as int]@);
        }
        match cookie_part_exec(pieces[i].as_slice()) {
            Some((k, v)) => {
                assert(parts_to_pairs(ps.take(i + 1)) == before.push((k@, v@)));
                assert(before.push((k@, v@)).drop_last() =~= before);
                if !chars_eq(k.as_slice(), name.as_slice()) {
                    let ghost old_texts = views(texts@);
                    texts.push(pair_text_exec(k.as_slice(), v.as_slice()));
                    assert(views(texts@) =~= old_texts.push(pair_text((k@, v@))));
                    assert(drop_key(before.push((k@, v@)), name@) == drop_key(before, name@).push(
                        (k@, v@),
                    ));
                    assert(views(texts@) =~= drop_key(before.push((k@, v@)), name@).map_values(
                        |p: (Seq<char>, Seq<char>)| pair_text(p),
                    ));
                }
            },
            None => {
                assert(parts_to_pairs(ps.take(i + 1)) == before);
            },
        }
    }
    assert(ps.take(n as int) =~= ps);
    let ghost kept = drop_key(cookie_pairs(entry@), name@);
    let ghost old_texts = views(texts@);
    assert(ps == split_char(entry@, ';'));
    assert(old_texts == kept.map_values(|p: (Seq<char>, Seq<char>)| pair_text(p)));
    texts.push(pair_text_exec(name.as_slice(), value.as_slice()));
    assert(views(texts@) =~= old_texts.push(pair_text((name@, value@))));
    assert(views(texts@) =~= kept.push((name@, value@)).map_values(
        |p: (Seq<char>, Seq<char>)| pair_text(p),
    ));
    let sep = chars_of("; ");
    let joined = join_chars(&texts, sep.as_slice());
    jar.set(scope, string_of(joined.as_slice()));
}

/// The `Cookie` header to send to `base`: the one kept for its scope, or
/// else the primary site's.
pub fn cookie_header_for(jar: &CookieJar, base: &str) -> (r: Option<String>)
    ensures
        match spec_cookie_header(jar@, base@) {
            Some(h) => r matches Some(x) && x@ == h,
            None => r is None,
        },
{
    let scope = cookie_scope(base);
    match jar.get(&scope) {
        Some(v) => Some(v),
        None => {
            let primary = primary_site_base_str().to_string();
            jar.get(&primary)
        },
    }
}

/// Merges the `Set-Cookie` values of one response for `base`: of each
/// value, the text before its first `;`, trimmed. `None` stands for a value
/// that is not visible ASCII text; it is skipped.
pub fn remember_response_cookies(jar: &mut CookieJar, base: &str, values: &Vec<Option<String>>)
    ensures
        final(jar)@ == spec_remember_cookies(
            old(jar)@,
            base@,
            values@.map_values(|v: Option<String>| opt_view(v)),
        ),
{
    let ghost vs = values@.map_values(|v: Option<String>| opt_view(v));
    let n = values.len();
    for i in 0..n
        invariant
            n == values@.len(),
            vs == values@.map_values(|v: Option<String>| opt_view(v)),
            jar@ == spec_remember_cookies(old(jar)@, base@, vs.take(i as int)),
    {
        assert(vs.take(i + 1).drop_last() =~= vs.take(i as int));
        match &values[i] {
            Some(cookie) => {
                let c = chars_of(cookie.as_str());
                let pieces = split_chars(c.as_slice(), ';');
                proof {
                    lemma_split_char_nonempty(c@, ';');
                }
                let first = trim_chars(pieces[0].as_slice(), Trim::Whitespace);
                let first_text = string_of(first.as_slice());
                merge_cookie(jar, base, first_text.as_str());
            },
            None => {},
        }
    }
    assert(vs.take(n as int) =~= vs);
}

/// The view of an optional string.
pub open spec fn opt_view(v: Option<String>) -> Option<Seq<char>> {
    match v {
        Some(s) => Some(s@),
        None => None,
    }
}

/// A pair as it reads back from a header: name and value trimmed, neither
/// holding `;`, the name holding no `=`.
pub open spec fn clean_pair(p: (Seq<char>, Seq<char>)) -> bool {
    &&& is_trimmed(p.0)
    &&& is_trimmed(p.1)
    &&& lacks(p.0, ';')
    &&& lacks(p.1, ';')
    &&& lacks(p.0, '=')
}

pub open spec fn all_clean(ps: Seq<(Seq<char>, Seq<char>)>) -> bool {
    forall|i: int| 0 <= i < ps.len() ==> clean_pair(#[trigger] ps[i])
}

/// Splitting at the first `d`: the part before lacks `d`; both parts are
/// parts of the text.
proof fn lemma_split_once_parts(s: Seq<char>, d: char)
    requires
        split_once_char(s, d) is Some,
    ensures
        ({
            let (a, b) = split_once_char(s, d)->0;
            &&& lacks(a, d)
            &&& exists|i: int|
                0 <= i < s.len() && a == s.subrange(0, i) && b == s.subrange(i + 1, s.len() as int)
        }),
{
    lemma_find_from(s, seq![d], 0);
    let i = find_from(s, seq![d], 0)->0;
    let (a, b) = split_once_char(s, d)->0;
    assert forall|j: int| 0 <= j < a.len() implies a[j] != d by {
        lemma_occurs_char(s, d, j);
    }
    assert(a =~= s.subrange(0, i));
    assert(b =~= s.subrange(i + 1, s.len() as int));
}

/// What a header piece reads as is clean when the piece has no `;`.
proof fn lemma_cookie_part_clean(piece: Seq<char>)
    requires
        lacks(piece, ';'),
        cookie_part(piece) is Some,
    ensures
        clean_pair(cookie_part(piece)->0),
{
    let ab = lemma_trim_shape(piece);
    let t = trim(piece);
    lemma_lacks_subrange(piece, ';', ab.0, ab.1);
    lemma_split_once_parts(t, '=');
    let (k, v) = split_once_char(t, '=')->0;
    let i = choose|i: int|
        0 <= i < t.len() && k == t.subrange(0, i) && v == t.subrange(i + 1, t.len() as int);
    lemma_lacks_subrange(t, ';', 0, i);
    lemma_lacks_subrange(t, ';', i + 1, t.len() as int);
    let kk = lemma_trim_shape(k);
    let vv = lemma_trim_shape(v);
    lemma_lacks_subrange(k, ';', kk.0, kk.1);
    lemma_lacks_subrange(k, '=', kk.0, kk.1);
    lemma_lacks_subrange(v, ';', vv.0, vv.1);
}

proof fn lemma_parts_clean(pieces: Seq<Seq<char>>)
    requires
        forall|i: int| 0 <= i < pieces.len() ==> lacks(#[trigger] pieces[i], ';'),
    ensures
        all_clean(parts_to_pairs(pieces)),
    decreases pieces.len(),
{
    if pieces.len() > 0 {
        lemma_parts_clean(pieces.drop_last());
        if cookie_part(pieces.last()) is Some {
            lemma_cookie_part_clean(pieces.last());
        }
    }
}

/// Every pair read from any header is clean.
proof fn lemma_cookie_pairs_clean(entry: Seq<char>)
    ensures
        all_clean(cookie_pairs(entry)),
{
    lemma_split_pieces_lack(entry, ';');
    lemma_parts_clean(split_char(entry, ';'));
}

proof fn lemma_drop_key(ps: Seq<(Seq<char>, Seq<char>)>, name: Seq<char>)
    requires
        all_clean(ps),
    ensures
        all_clean(drop_key(ps, name)),
        forall|i: int| 0 <= i < drop_key(ps, name).len() ==> (#[trigger] drop_key(ps, name)[i]).0
            != name,
    decreases ps.len(),
{
    if ps.len() > 0 {
        lemma_drop_key(ps.drop_last(), name);
    }
}

/// A clean pair, written as `name=value` with or without one leading
/// space, reads back as itself.
proof fn lemma_parse_pair_text(p: (Seq<char>, Seq<char>))
    requires
        clean_pair(p),
    ensures
        cookie_part(pair_text(p)) == Some(p),
        cookie_part(seq![' '] + pair_text(p)) == Some(p),
{
    let (k, v) = p;
    let t = pair_text(p);
    assert(t.len() == k.len() + 1 + v.len());
    if k.len() > 0 {
        assert(t[0] == k[0]);
    } else {
        assert(t[0] == '=');
    }
    if v.len() > 0 {
        assert(t.last() == v.last());
    } else {
        assert(t.last() == '=');
    }
    lemma_trimmed_fixed(t);
    lemma_trim_leading_space(t);
    lemma_occurs_char(t, '=', k.len() as int);
    assert forall|j: int| 0 <= j < k.len() implies !occurs_at(t, seq!['='], j) by {
        lemma_occurs_char(t, '=', j);
    }
    lemma_find_first(t, seq!['='], 0, k.len() as int);
    assert(t.take(k.len() as int) =~= k);
    assert(t.skip(k.len() as int + 1) =~= v);
    lemma_trimmed_fixed(k);
    lemma_trimmed_fixed(v);
}

/// Clean pairs written as a header read back as the same pairs.
proof fn lemma_join_roundtrip(ps: Seq<(Seq<char>, Seq<char>)>)
    requires
        all_clean(ps),
    ensures
        cookie_pairs(join_pairs(ps)) == ps,
    decreases ps.len(),
{
    let texts = ps.map_values(|p: (Seq<char>, Seq<char>)| pair_text(p));
    if ps.len() == 0 {
        assert(join_pairs(ps) == Seq::<char>::empty());
        assert(split_char(Seq::empty(), ';') == seq![Seq::<char>::empty()]);
        assert(seq![Seq::<char>::empty()].drop_last() =~= Seq::<Seq<char>>::empty());
        assert(find_from(Seq::<char>::empty(), seq!['='], 0) is None);
        assert(trim(Seq::<char>::empty()) =~= Seq::<char>::empty());
        assert(ps =~= Seq::<(Seq<char>, Seq<char>)>::empty());
        assert(cookie_part(Seq::<char>::empty()) is None);
        let one = seq![Seq::<char>::empty()];
        assert(one.last() == Seq::<char>::empty());
        assert(parts_to_pairs(one.drop_last()) == Seq::<(Seq<char>, Seq<char>)>::empty());
        assert(parts_to_pairs(one) == Seq::<(Seq<char>, Seq<char>)>::empty());
        assert(cookie_pairs(join_pairs(ps)) == ps);
    } else {
        let p = ps.last();
        assert(clean_pair(p));
        lemma_parse_pair_text(p);
        let t = pair_text(p);
        assert(lacks(t, ';'));
        if ps.len() == 1 {
            lemma_split_single(t, ';');
            assert(join_pairs(ps) == t);
            assert(seq![t].drop_last() =~= Seq::<Seq<char>>::empty());
            assert(seq![t].last() == t);
            assert(parts_to_pairs(seq![t].drop_last()) == Seq::<(Seq<char>, Seq<char>)>::empty());
            assert(parts_to_pairs(seq![t]) == Seq::<(Seq<char>, Seq<char>)>::empty().push(p));
            assert(ps =~= seq![p]);
            assert(cookie_pairs(join_pairs(ps)) == ps);
        } else {
            let rest = ps.drop_last();
            lemma_join_roundtrip(rest);
            assert(texts.drop_last() =~= rest.map_values(|p: (Seq<char>, Seq<char>)| pair_text(p)));
            let a = join_pairs(rest);
            reveal_strlit("; ");
            assert("; "@ =~= seq![';', ' ']);
            assert(join_pairs(ps) == a + "; "@ + t);
            let b = seq![' '] + t;
            assert(a + "; "@ + t =~= a + seq![';'] + b);
            assert(lacks(b, ';'));
            lemma_split_append(a, b, ';');
            let sp = split_char(a, ';').push(b);
            assert(sp.drop_last() =~= split_char(a, ';'));
            assert(sp.last() == b);
            assert(split_char(join_pairs(ps), ';') == sp);
            assert(parts_to_pairs(sp) == parts_to_pairs(split_char(a, ';')).push(p));
            assert(ps =~= rest.push(p));
            assert(cookie_pairs(join_pairs(ps)) == ps);
        }
    }
}

/// Reading back what was written: after `name=value` is merged for `base`,
/// the header sent to `base` holds the scope's earlier pairs without
/// `name`, followed by the new pair, so exactly one of its pairs carries
/// `name`, the last one, with the new value; no other scope changes.
pub proof fn law_merge_then_header(jar: Map<Seq<char>, Seq<char>>, base: Seq<char>, pair: Seq<
    char,
>)
    requires
        merged_pair(pair) is Some,
        lacks(pair, ';'),
    ensures
        ({
            let (name, value) = merged_pair(pair)->0;
            let after = spec_merge_cookie(jar, base, pair);
            let scope = spec_cookie_scope(base);
            &&& spec_cookie_header(after, base) is Some
            &&& cookie_pairs(spec_cookie_header(after, base)->0) == drop_key(
                cookie_pairs(entry_of(jar, scope)),
                name,
            ).push((name, value))
            &&& forall|s: Seq<char>| s != scope ==> entry_of(after, s) == entry_of(jar, s)
            &&& ({
                let ps = cookie_pairs(spec_cookie_header(after, base)->0);
                &&& ps.len() > 0
                &&& ps.last() == (name, value)
                &&& forall|i: int| 0 <= i < ps.len() - 1 ==> (#[trigger] ps[i]).0 != name
            })
        }),
{
    let (name, value) = merged_pair(pair)->0;
    let scope = spec_cookie_scope(base);
    lemma_split_once_parts(pair, '=');
    let (raw_name, raw_value) = split_once_char(pair, '=')->0;
    let i = choose|i: int|
        0 <= i < pair.len() && raw_name == pair.subrange(0, i) && raw_value == pair.subrange(
            i + 1,
            pair.len() as int,
        );
    lemma_lacks_subrange(pair, ';', 0, i);
    lemma_lacks_subrange(pair, ';', i + 1, pair.len() as int);
    let nn = lemma_trim_shape(raw_name);
    let vv = lemma_trim_shape(raw_value);
    lemma_lacks_subrange(raw_name, ';', nn.0, nn.1);
    lemma_lacks_subrange(raw_name, '=', nn.0, nn.1);
    lemma_lacks_subrange(raw_value, ';', vv.0, vv.1);
    assert(clean_pair((name, value)));
    let old_pairs = cookie_pairs(entry_of(jar, scope));
    lemma_cookie_pairs_clean(entry_of(jar, scope));
    lemma_drop_key(old_pairs, name);
    let kept = drop_key(old_pairs, name);
    assert(all_clean(kept.push((name, value)))) by {
        assert forall|j: int| 0 <= j < kept.push((name, value)).len() implies clean_pair(
            #[trigger] kept.push((name, value))[j],
        ) by {
            if j < kept.len() {
                assert(kept.push((name, value))[j] == kept[j]);
            }
        }
    }
    lemma_join_roundtrip(kept.push((name, value)));
    let ps = kept.push((name, value));
    assert forall|i: int| 0 <= i < ps.len() - 1 implies (#[trigger] ps[i]).0 != name by {
        assert(ps[i] == kept[i]);
    }
}

} // verus!
