//! Reading what a server answered: recognising the hosting provider's
//! challenge page and site pages, turning a response text into a JSON
//! value, and the decisions taken on that value.
use vstd::prelude::*;
use crate::json::{
    JsonNumber, decimal, get, json_as_bool, json_as_i64, json_as_str, json_get,
    members_view, number_u16, object, spec_value_to_bool, spec_value_to_i64, string_value,
    value_to_bool, value_to_i64, value_to_param, param_matches, json_view, Json, JsonV, ParamValue,
};
use crate::text::{
    ascii_lower_seq, chars_eq, chars_of, contains, contains_chars, is_whitespace, is_ws, join,
    string_of, sub_vec, to_ascii_lower_chars, trim, trim_chars, Trim,
};

verus! {

broadcast use vstd::string::group_string_axioms;

/// The hosting provider's script challenge: it computes a `__test` cookie
/// with `slowAES`.
pub open spec fn spec_looks_like_aes_challenge(t: Seq<char>) -> bool {
    ||| (contains(t, "toNumbers"@) && contains(t, "toHex"@))
    ||| contains(t, "slowAES"@)
    ||| contains(t, "__test"@)
    ||| contains(t, "document.cookie"@)
}

/// Whether `text` looks like the hosting provider's challenge page.
pub fn looks_like_aes_challenge(text: &str) -> (r: bool)
    ensures
        r == spec_looks_like_aes_challenge(text@),
{
    let t = chars_of(text);
    let t = t.as_slice();
    (contains_chars(t, chars_of("toNumbers").as_slice()) && contains_chars(
        t,
        chars_of("toHex").as_slice(),
    )) || contains_chars(t, chars_of("slowAES").as_slice()) || contains_chars(
        t,
        chars_of("__test").as_slice(),
    ) || contains_chars(t, chars_of("document.cookie").as_slice())
}

/// A page script of the site rather than an API answer.
pub open spec fn spec_looks_like_site_script(t: Seq<char>) -> bool {
    ||| (contains(t, "js_css"@) && contains(t, "document.createElement"@))
    ||| contains(t, "#site_header .submenus"@)
}

/// Whether `text` looks like a page script of the site.
pub fn looks_like_site_script(text: &str) -> (r: bool)
    ensures
        r == spec_looks_like_site_script(text@),
{
    let t = chars_of(text);
    let t = t.as_slice();
    (contains_chars(t, chars_of("js_css").as_slice()) && contains_chars(
        t,
        chars_of("document.createElement").as_slice(),
    )) || contains_chars(t, chars_of("#site_header .submenus").as_slice())
}

pub open spec fn is_open_bracket(c: char) -> bool {
    c == '{' || c == '['
}

pub open spec fn is_close_bracket(c: char) -> bool {
    c == '}' || c == ']'
}

/// The index of the first `{` or `[`.
pub open spec fn first_open(s: Seq<char>) -> Option<int>
    decreases s.len(),
{
    if s.len() == 0 {
        None
    } else {
        match first_open(s.drop_last()) {
            Some(i) => Some(i),
            None => if is_open_bracket(s.last()) {
                Some(s.len() - 1)
            } else {
                None
            },
        }
    }
}

/// The index of the last `}` or `]`.
pub open spec fn last_close(s: Seq<char>) -> Option<int>
    decreases s.len(),
{
    if s.len() == 0 {
        None
    } else if is_close_bracket(s.last()) {
        Some(s.len() - 1)
    } else {
        last_close(s.drop_last())
    }
}

/// The text from the first `{` or `[` to the last `}` or `]`, when the
/// first comes no later than the last.
pub open spec fn spec_extract_json(s: Seq<char>) -> Option<Seq<char>> {
    match (first_open(s), last_close(s)) {
        (Some(a), Some(b)) => if a <= b {
            Some(s.subrange(a, b + 1))
        } else {
            None
        },
        _ => None,
    }
}

/// The part of `text` that may hold a JSON value, as `spec_extract_json`
/// describes.
pub fn extract_json(text: &str) -> (r: Option<String>)
    ensures
        match spec_extract_json(text@) {
            Some(x) => r matches Some(s) && s@ == x,
            None => r is None,
        },
{
    let t = chars_of(text);
    let n = t.len();
    let start = match find_first_open(t.as_slice()) {
        Some(k) => k,
        None => return None,
    };
    let mut j = n;
    assert(t@.take(n as int) =~= t@);
    while j > 0 && !(t[j - 1] == '}' || t[j - 1] == ']')
        invariant
            n == t@.len(),
            j <= n,
            last_close(t@) == last_close(t@.take(j as int)),
        decreases j,
    {
        assert(t@.take(j as int).drop_last() =~= t@.take(j - 1));
        j = j - 1;
    }
    if j == 0 {
        assert(t@.take(0) =~= Seq::<char>::empty());
        return None;
    }
    assert(t@.take(j as int).last() == t@[j - 1]);
    let end = j - 1;
    assert(last_close(t@) == Some(end as int));
    assert(first_open(t@) == Some(start as int));
    if start <= end {
        let part = sub_vec(t.as_slice(), start, end + 1);
        Some(string_of(part.as_slice()))
    } else {
        None
    }
}

fn find_first_open(t: &[char]) -> (r: Option<usize>)
    ensures
        r matches Some(i) ==> first_open(t@) == Some(i as int),
        r is None ==> first_open(t@) is None,
{
    let n = t.len();
    for i in 0..n
        invariant
            n == t@.len(),
            first_open(t@.take(i as int)) is None,
    {
        assert(t@.take(i + 1).drop_last() =~= t@.take(i as int));
        if t[i] == '{' || t[i] == '[' {
            proof {
                lemma_first_open_prefix(t@, i as int);
            }
            return Some(i);
        }
    }
    assert(t@.take(n as int) =~= t@);
    None
}

/// A `{` or `[` found in a prefix is the first one of the whole text.
proof fn lemma_first_open_prefix(s: Seq<char>, k: int)
    requires
        0 <= k < s.len(),
        first_open(s.take(k + 1)) == Some(k),
    ensures
        first_open(s) == Some(k),
    decreases s.len(),
{
    if s.len() > k + 1 {
        assert(s.drop_last().take(k + 1) =~= s.take(k + 1));
        lemma_first_open_prefix(s.drop_last(), k);
    } else {
        assert(s.take(k + 1) =~= s);
    }
}

/// Scanning for tags: the text outside `<...>` with each `>` read as a
/// space, and whether a tag is still open.
pub open spec fn tag_scan(s: Seq<char>) -> (Seq<char>, bool)
    decreases s.len(),
{
    if s.len() == 0 {
        (Seq::empty(), false)
    } else {
        let (out, in_tag) = tag_scan(s.drop_last());
        let c = s.last();
        if c == '<' {
            (out, true)
        } else if c == '>' {
            (out.push(' '), false)
        } else if !in_tag {
            (out.push(c), false)
        } else {
            (out, true)
        }
    }
}

/// The pieces of `s` between whitespace characters (`str::split` on
/// whitespace), always at least one.
pub open spec fn ws_pieces(s: Seq<char>) -> Seq<Seq<char>>
    decreases s.len(),
{
    if s.len() == 0 {
        seq![Seq::empty()]
    } else {
        let prev = ws_pieces(s.drop_last());
        if is_ws(s.last()) {
            prev.push(Seq::empty())
        } else {
            prev.update(prev.len() - 1, prev.last().push(s.last()))
        }
    }
}

/// The non-empty ones among `ps`.
pub open spec fn nonempty(ps: Seq<Seq<char>>) -> Seq<Seq<char>>
    decreases ps.len(),
{
    if ps.len() == 0 {
        ps
    } else {
        let p = nonempty(ps.drop_last());
        if ps.last().len() > 0 {
            p.push(ps.last())
        } else {
            p
        }
    }
}

/// `str::split_whitespace`: the words of `s`.
pub open spec fn words(s: Seq<char>) -> Seq<Seq<char>> {
    nonempty(ws_pieces(s))
}

/// At most the first `n` characters of `s`.
pub open spec fn take_chars(s: Seq<char>, n: nat) -> Seq<char> {
    if s.len() <= n {
        s
    } else {
        s.take(n as int)
    }
}

/// An HTML page as short plain text: tags dropped, words separated by one
/// space, at most 180 characters.
pub open spec fn spec_html_to_text(s: Seq<char>) -> Seq<char> {
    take_chars(join(words(tag_scan(s).0), seq![' ']), 180)
}

fn strip_tags(s: &[char]) -> (r: Vec<char>)
    ensures
        r@ == tag_scan(s@).0,
{
    let mut out: Vec<char> = Vec::new();
    let mut in_tag = false;
    let n = s.len();
    for i in 0..n
        invariant
            n == s@.len(),
            (out@, in_tag) == tag_scan(s@.take(i as int)),
    {
        assert(s@.take(i + 1).drop_last() =~= s@.take(i as int));
        let c = s[i];
        if c == '<' {
            in_tag = true;
        } else if c == '>' {
            in_tag = false;
            out.push(' ');
        } else if !in_tag {
            out.push(c);
        }
    }
    assert(s@.take(n as int) =~= s@);
    out
}

/// Adds `word` to the words joined so far when it is not empty.
fn add_word(acc: &mut Vec<char>, Ghost(done): Ghost<Seq<Seq<char>>>, word: &Vec<char>)
    requires
        old(acc)@ == join(nonempty(done), seq![' ']),
    ensures
        final(acc)@ == join(nonempty(done.push(word@)), seq![' ']),
{
    assert(done.push(word@).drop_last() =~= done);
    if word.len() > 0 {
        let ghost ws = nonempty(done);
        assert(nonempty(done.push(word@)) == ws.push(word@));
        assert(ws.push(word@).drop_last() =~= ws);
        proof {
            lemma_nonempty_words(done);
            if ws.len() > 0 {
                assert(ws.last().len() > 0);
                if ws.len() > 1 {
                    assert(join(ws, seq![' ']) == join(ws.drop_last(), seq![' ']) + seq![' ']
                        + ws.last());
                }
            }
        }
        if acc.len() == 0 {
            let w = sub_vec(word.as_slice(), 0, word.len());
            assert(w@ =~= word@);
            *acc = w;
        } else {
            proof {
                if ws.len() == 0 {
                    assert(join(ws, seq![' ']).len() == 0);
                }
            }
            let sep = vec![' '];
            let with_sep = crate::text::concat_chars(acc.as_slice(), sep.as_slice());
            *acc = crate::text::concat_chars(with_sep.as_slice(), word.as_slice());
            assert(sep@ =~= seq![' ']);
        }
    } else {
        assert(nonempty(done.push(word@)) == nonempty(done));
    }
}

proof fn lemma_nonempty_words(ps: Seq<Seq<char>>)
    ensures
        forall|i: int| 0 <= i < nonempty(ps).len() ==> (#[trigger] nonempty(ps)[i]).len() > 0,
    decreases ps.len(),
{
    if ps.len() > 0 {
        lemma_nonempty_words(ps.drop_last());
        let p = nonempty(ps.drop_last());
        if ps.last().len() > 0 {
            assert forall|i: int| 0 <= i < nonempty(ps).len() implies (#[trigger] nonempty(
                ps,
            )[i]).len() > 0 by {
                if i < p.len() {
                    assert(nonempty(ps)[i] == p[i]);
                }
            }
        }
    }
}

/// The words of `s` joined with single spaces.
fn collapse_whitespace(s: &[char]) -> (r: Vec<char>)
    ensures
        r@ == join(words(s@), seq![' ']),
{
    let mut acc: Vec<char> = Vec::new();
    let mut cur: Vec<char> = Vec::new();
    let ghost mut done: Seq<Seq<char>> = Seq::empty();
    let n = s.len();
    for i in 0..n
        invariant
            n == s@.len(),
            ws_pieces(s@.take(i as int)) == done.push(cur@),
            acc@ == join(nonempty(done), seq![' ']),
    {
        assert(s@.take(i + 1).drop_last() =~= s@.take(i as int));
        let c = s[i];
        if is_whitespace(c) {
            add_word(&mut acc, Ghost(done), &cur);
            proof {
                done = done.push(cur@);
            }
            cur = Vec::new();
        } else {
            let ghost before = cur@;
            cur.push(c);
            assert(done.push(before).update(done.len() as int, before.push(c)) =~= done.push(cur@));
        }
    }
    assert(s@.take(n as int) =~= s@);
    add_word(&mut acc, Ghost(done), &cur);
    acc
}

fn take_chars_exec(s: &[char], n: usize) -> (r: Vec<char>)
    ensures
        r@ == take_chars(s@, n as nat),
{
    if s.len() <= n {
        let r = sub_vec(s, 0, s.len());
        assert(r@ =~= s@);
        r
    } else {
        sub_vec(s, 0, n)
    }
}

/// An HTML page as short plain text, as `spec_html_to_text` describes.
pub fn html_to_text(text: &str) -> (r: String)
    ensures
        r@ == spec_html_to_text(text@),
{
    let t = chars_of(text);
    let stripped = strip_tags(t.as_slice());
    let compact = collapse_whitespace(stripped.as_slice());
    let short = take_chars_exec(compact.as_slice(), 180);
    string_of(short.as_slice())
}

/// The `message` of a response, or `请求失败` when it has none that is text.
pub open spec fn spec_message_from_value(data: JsonV) -> Seq<char> {
    match json_as_str(json_get(data, "message"@)) {
        Some(m) => m,
        None => "请求失败"@,
    }
}

/// The message of a response, as `spec_message_from_value` describes.
pub fn message_from_value(data: &Json) -> (r: String)
    ensures
        r@ == spec_message_from_value(data@),
{
    match get(data, "message") {
        Some(Json::Str(m)) => m.clone(),
        _ => "请求失败".to_string(),
    }
}

/// `key` of a response read as a flag.
pub open spec fn flag_of(data: JsonV, key: Seq<char>) -> Option<bool> {
    match json_get(data, key) {
        Some(v) => spec_value_to_bool(v),
        None => None,
    }
}

/// Whether a response reports success: its `success` flag, else its `ok`
/// flag, else whether its `code` is 0 or 200; false when it has none.
pub open spec fn spec_is_success_response(data: JsonV) -> bool {
    if flag_of(data, "success"@) is Some {
        flag_of(data, "success"@)->0
    } else if flag_of(data, "ok"@) is Some {
        flag_of(data, "ok"@)->0
    } else {
        match json_get(data, "code"@) {
            Some(v) => match spec_value_to_i64(v) {
                Some(code) => code == 0 || code == 200,
                None => false,
            },
            None => false,
        }
    }
}

/// Whether a response reports success, as `spec_is_success_response`
/// describes.
pub fn is_success_response(data: &Json) -> (r: bool)
    ensures
        r == spec_is_success_response(data@),
{
    if let Some(v) = get(data, "success") {
        if let Some(b) = value_to_bool(v) {
            return b;
        }
    }
    if let Some(v) = get(data, "ok") {
        if let Some(b) = value_to_bool(v) {
            return b;
        }
    }
    if let Some(v) = get(data, "code") {
        if let Some(code) = value_to_i64(v) {
            return code == 0 || code == 200;
        }
    }
    false
}

/// The record of one attempt: the entry point, the status and the message.
pub open spec fn spec_endpoint_attempt(url: Seq<char>, status: u16, data: JsonV) -> JsonV {
    JsonV::Object(
        seq![
            ("endpoint"@, JsonV::Str(url)),
            ("status"@, JsonV::Number(Some(status as i64), decimal(status as nat))),
            ("message"@, JsonV::Str(spec_message_from_value(data))),
        ],
    )
}

/// The record of one attempt, as `spec_endpoint_attempt` describes.
pub fn endpoint_attempt(url: &str, status: u16, data: &Json) -> (r: Json)
    ensures
        r@ == spec_endpoint_attempt(url@, status, data@),
{
    let mut m: Vec<(String, Json)> = Vec::new();
    m.push(("endpoint".to_string(), string_value(url)));
    m.push(("status".to_string(), number_u16(status)));
    m.push(("message".to_string(), Json::Str(message_from_value(data))));
    let r = object(m);
    assert(members_view(m@) =~= seq![
        ("endpoint"@, JsonV::Str(url@)),
        ("status"@, JsonV::Number(Some(status as i64), decimal(status as nat))),
        ("message"@, JsonV::Str(spec_message_from_value(data@))),
    ]);
    r
}

/// An attempt answered with status 401 (its `status` is the integer 401).
pub open spec fn is_unauthorized_attempt(a: JsonV) -> bool {
    json_as_i64(json_get(a, "status"@)) == Some(401i64)
}

/// Whether any attempt was answered with status 401.
pub fn has_unauthorized_attempt(attempts: &[Json]) -> (r: bool)
    ensures
        r == exists|i: int| 0 <= i < attempts@.len() && is_unauthorized_attempt(#[trigger] attempts@[i]@),
{
    let n = attempts.len();
    for i in 0..n
        invariant
            n == attempts@.len(),
            forall|j: int| 0 <= j < i ==> !is_unauthorized_attempt(#[trigger] attempts@[j]@),
    {
        match get(&attempts[i], "status") {
            Some(Json::Number(x)) => {
                if x.int == Some(401i64) {
                    return true;
                }
            },
            _ => {},
        }
    }
    false
}

/// Whether the next entry point should be tried after this answer: always
/// after 401; after a text that was not an API answer when the status is
/// 0, 200, 204, 400, 404, 405 or 5xx.
pub open spec fn spec_should_try_next_endpoint(status: u16, data: JsonV) -> bool {
    if status == 401 {
        true
    } else if !(json_as_bool(json_get(data, "parse_error"@)) == Some(true)) {
        false
    } else {
        status == 0 || status == 200 || status == 204 || status == 400 || status == 404 || status
            == 405 || (500 <= status && status <= 599)
    }
}

/// When a call moves on to the next entry point: always after a 401;
/// after an answer that could not be read as an API answer (its
/// `parse_error` is `true`) with status 0, 200, 204, 400, 404, 405 or any
/// 5xx; never after an answer read as an API answer, nor after an unread
/// answer with another status.
pub proof fn law_next_endpoint(status: u16, data: JsonV)
    ensures
        status == 401 ==> spec_should_try_next_endpoint(status, data),
        (json_get(data, "parse_error"@) == Some(JsonV::Bool(true)) && (status == 0 || status == 200
            || status == 204 || status == 400 || status == 404 || status == 405 || (500 <= status
            && status <= 599))) ==> spec_should_try_next_endpoint(status, data),
        (json_get(data, "parse_error"@) != Some(JsonV::Bool(true)) && status != 401)
            ==> !spec_should_try_next_endpoint(status, data),
        (status != 401 && status != 0 && status != 200 && status != 204 && status != 400 && status
            != 404 && status != 405 && !(500 <= status && status <= 599))
            ==> !spec_should_try_next_endpoint(status, data),
{
}

/// Whether to try the next entry point, as `spec_should_try_next_endpoint`
/// describes. The path does not take part.
pub fn should_try_next_endpoint(_path: &str, status: u16, data: &Json) -> (r: bool)
    ensures
        r == spec_should_try_next_endpoint(status, data@),
{
    if status == 401 {
        return true;
    }
    let parse_error = match get(data, "parse_error") {
        Some(Json::Bool(b)) => *b,
        _ => false,
    };
    if !parse_error {
        return false;
    }
    status == 0 || status == 200 || status == 204 || status == 400 || status == 404 || status
        == 405 || (500 <= status && status <= 599)
}

/// A status code as a JSON number.
pub open spec fn status_json(status: u16) -> JsonV {
    JsonV::Number(Some(status as i64), decimal(status as nat))
}

/// The members of the answer made up for a text that is not an API answer.
pub open spec fn failure_members(message: Seq<char>, status: u16, url: Seq<char>) -> Seq<
    (Seq<char>, JsonV),
> {
    seq![
        ("success"@, JsonV::Bool(false)),
        ("message"@, JsonV::Str(message)),
        ("status"@, status_json(status)),
        ("endpoint"@, JsonV::Str(url)),
        ("parse_error"@, JsonV::Bool(true)),
    ]
}

/// A short preview of a text: plain text of an HTML page, else the first
/// 180 characters.
pub open spec fn spec_preview(t: Seq<char>) -> Seq<char> {
    if contains(t, seq!['<']) && contains(t, seq!['>']) {
        spec_html_to_text(t)
    } else {
        take_chars(t, 180)
    }
}

/// The view of an optional JSON value.
pub open spec fn opt_json_view(v: Option<Json>) -> Option<JsonV> {
    match v {
        Some(j) => Some(j@),
        None => None,
    }
}

/// The JSON value a response text stands for. `parsed` is the JSON value
/// the trimmed text parses to, if any; `parsed_extracted` the one that its
/// part `spec_extract_json` finds parses to, if any.
pub open spec fn spec_parse_response_text(
    text: Seq<char>,
    status: u16,
    url: Seq<char>,
    parsed: Option<JsonV>,
    parsed_extracted: Option<JsonV>,
) -> JsonV {
    let t = trim(text);
    if t.len() == 0 {
        JsonV::Object(failure_members("服务器返回了空响应"@, status, url))
    } else if spec_looks_like_aes_challenge(t) {
        JsonV::Object(
            failure_members(
                "服务器防护页仍在拦截 API 请求，已尝试计算 vmhost __test Cookie 但未通过。"@,
                status,
                url,
            ).push(("challenge"@, JsonV::Bool(true))),
        )
    } else if spec_looks_like_site_script(t) {
        JsonV::Object(failure_members("服务器返回了站点页面脚本，不是 API 响应"@, status, url))
    } else if ascii_lower_seq(t) == "success"@ {
        JsonV::Object(seq![("success"@, JsonV::Bool(true)), ("message"@, JsonV::Str("操作成功"@))])
    } else if parsed is Some {
        parsed->0
    } else if spec_extract_json(t) is Some && parsed_extracted is Some {
        parsed_extracted->0
    } else {
        let p = spec_preview(t);
        JsonV::Object(
            failure_members(
                if p.len() == 0 {
                    "服务器返回了非 JSON 响应"@
                } else {
                    p
                },
                status,
                url,
            ),
        )
    }
}

fn failure_object(message: String, status: u16, url: &str) -> (r: Vec<(String, Json)>)
    ensures
        members_view(r@) == failure_members(message@, status, url@),
{
    let mut m: Vec<(String, Json)> = Vec::new();
    m.push(("success".to_string(), Json::Bool(false)));
    m.push(("message".to_string(), Json::Str(message)));
    m.push(("status".to_string(), number_u16(status)));
    m.push(("endpoint".to_string(), string_value(url)));
    m.push(("parse_error".to_string(), Json::Bool(true)));
    assert(members_view(m@) =~= failure_members(message@, status, url@));
    m
}

/// The texts to try to read as JSON: the trimmed response text, and the
/// part of it that `extract_json` finds.
pub fn response_json_texts(text: &str) -> (r: (String, Option<String>))
    ensures
        r.0@ == trim(text@),
        match spec_extract_json(trim(text@)) {
            Some(x) => r.1 matches Some(s) && s@ == x,
            None => r.1 is None,
        },
{
    let c = chars_of(text);
    let t = string_of(trim_chars(c.as_slice(), Trim::Whitespace).as_slice());
    let e = extract_json(t.as_str());
    (t, e)
}

/// The JSON value a response text stands for, as
/// `spec_parse_response_text` describes, from what the trimmed text and its
/// JSON part were read as.
pub fn response_from_parsed(
    text: &str,
    status: u16,
    url: &str,
    parsed: Option<Json>,
    parsed_extracted: Option<Json>,
) -> (r: Json)
    ensures
        r@ == spec_parse_response_text(
            text@,
            status,
            url@,
            opt_json_view(parsed),
            opt_json_view(parsed_extracted),
        ),
{
    let c = chars_of(text);
    let tc = trim_chars(c.as_slice(), Trim::Whitespace);
    let trimmed = string_of(tc.as_slice());
    if tc.len() == 0 {
        return object(failure_object("服务器返回了空响应".to_string(), status, url));
    }
    if looks_like_aes_challenge(trimmed.as_str()) {
        let mut m = failure_object(
            "服务器防护页仍在拦截 API 请求，已尝试计算 vmhost __test Cookie 但未通过。".to_string(),
            status,
            url,
        );
        let ghost before = m@;
        m.push(("challenge".to_string(), Json::Bool(true)));
        assert(members_view(m@) =~= members_view(before).push(("challenge"@, JsonV::Bool(true))));
        return object(m);
    }
    if looks_like_site_script(trimmed.as_str()) {
        return object(
            failure_object("服务器返回了站点页面脚本，不是 API 响应".to_string(), status, url),
        );
    }
    let lower = to_ascii_lower_chars(tc.as_slice());
    if chars_eq(lower.as_slice(), chars_of("success").as_slice()) {
        let mut m: Vec<(String, Json)> = Vec::new();
        m.push(("success".to_string(), Json::Bool(true)));
        m.push(("message".to_string(), string_value("操作成功")));
        assert(members_view(m@) =~= seq![
            ("success"@, JsonV::Bool(true)),
            ("message"@, JsonV::Str("操作成功"@)),
        ]);
        return object(m);
    }
    if let Some(data) = parsed {
        return data;
    }
    if let Some(_part) = extract_json(trimmed.as_str()) {
        if let Some(data) = parsed_extracted {
            return data;
        }
    }
    let lt = vec!['<'];
    let gt = vec!['>'];
    assert(lt@ =~= seq!['<']);
    assert(gt@ =~= seq!['>']);
    let preview = if contains_chars(tc.as_slice(), lt.as_slice()) && contains_chars(
        tc.as_slice(),
        gt.as_slice(),
    ) {
        html_to_text(trimmed.as_str())
    } else {
        string_of(take_chars_exec(tc.as_slice(), 180).as_slice())
    };
    let message = if preview.as_str().is_empty() {
        "服务器返回了非 JSON 响应".to_string()
    } else {
        preview
    };
    object(failure_object(message, status, url))
}

/// The members of an object that become request parameters: those whose
/// value is not null.
pub open spec fn param_members(ms: Seq<(Seq<char>, JsonV)>) -> Seq<(Seq<char>, JsonV)>
    decreases ms.len(),
{
    if ms.len() == 0 {
        ms
    } else {
        let p = param_members(ms.drop_last());
        if ms.last().1 is Null {
            p
        } else {
            p.push(ms.last())
        }
    }
}

/// The members of `params` that become request parameters (none when it
/// is not an object).
pub open spec fn spec_params_of(params: JsonV) -> Seq<(Seq<char>, JsonV)> {
    match params {
        JsonV::Object(ms) => param_members(ms),
        _ => Seq::empty(),
    }
}

/// The request parameters: each non-null member of `params` in order,
/// then `route` when there is one.
pub fn request_pairs<'a>(params: &'a Json, route: Option<&str>) -> (r: Vec<(String, ParamValue<'a>)>)
    ensures
        ({
            let kept = spec_params_of(params@);
            &&& r@.len() == kept.len() + (if route is Some {
                1int
            } else {
                0int
            })
            &&& forall|i: int|
                0 <= i < kept.len() ==> (#[trigger] r@[i]).0@ == kept[i].0 && param_matches(
                    kept[i].1,
                    Some(r@[i].1),
                )
            &&& route matches Some(x) ==> (r@[kept.len() as int].0@ == "route"@ && (r@[kept.len() as int].1 matches ParamValue::Text(t) && t@ == x@))
        }),
{
    let mut pairs: Vec<(String, ParamValue<'a>)> = Vec::new();
    let ghost kept = spec_params_of(params@);
    match params {
        Json::Object(members) => {
            let ghost ms = match params@ {
                JsonV::Object(m) => m,
                _ => Seq::empty(),
            };
            let n = members.len();
            for i in 0..n
                invariant
                    n == members@.len(),
                    n == ms.len(),
                    params@ == JsonV::Object(ms),
                    forall|j: int| 0 <= j < n ==> #[trigger] ms[j] == (members@[j].0@, json_view(members@[j].1)),
                    pairs@.len() == param_members(ms.take(i as int)).len(),
                    forall|j: int|
                        0 <= j < pairs@.len() ==> (#[trigger] pairs@[j]).0@ == param_members(ms.take(i as int))[j].0 && param_matches(
                            param_members(ms.take(i as int))[j].1,
                            Some(pairs@[j].1),
                        ),
            {
                assert(ms.take(i + 1).drop_last() =~= ms.take(i as int));
                assert(ms[i as int] == (members@[i as int].0@, json_view(members@[i as int].1)));
                let value = &members[i].1;
                let ghost prev = param_members(ms.take(i as int));
                match value_to_param(value) {
                    Some(p) => {
                        let ghost old_pairs = pairs@;
                        pairs.push((members[i].0.clone(), p));
                        assert(param_members(ms.take(i + 1)) == prev.push(ms[i as int]));
                        assert forall|j: int| 0 <= j < pairs@.len() implies (#[trigger] pairs@[j]).0@ == param_members(ms.take(i + 1))[j].0 && param_matches(
                            param_members(ms.take(i + 1))[j].1,
                            Some(pairs@[j].1),
                        ) by {
                            if j < old_pairs.len() {
                                assert(pairs@[j] == old_pairs[j]);
                            }
                        }
                    },
                    None => {
                        assert(param_members(ms.take(i + 1)) == prev);
                    },
                }
            }
            assert(ms.take(n as int) =~= ms);
        },
        _ => {},
    }
    if let Some(route) = route {
        pairs.push(("route".to_string(), ParamValue::Text(route.to_string())));
    }
    pairs
}

#[verifier::external_type_specification]
#[verifier::external_body]
pub struct ExValue(serde_json::Value);

/// What a text reads as with the JSON grammar, `None` when it is not
/// JSON.
pub uninterp spec fn json_parse(text: Seq<char>) -> Option<JsonV>;

/// A `serde_json::Value` as the library's JSON value, variant by variant:
/// a number keeps its `as_i64` value and its text, an object its members
/// in the order the value holds them. Only `parse_json` uses it.
#[verifier::external_body]
fn json_from_value(value: serde_json::Value) -> Json {
    match value {
        serde_json::Value::Null => Json::Null,
        serde_json::Value::Bool(b) => Json::Bool(b),
        serde_json::Value::Number(n) => Json::Number(JsonNumber { int: n.as_i64(), text: n.to_string() }),
        serde_json::Value::String(s) => Json::Str(s),
        serde_json::Value::Array(items) => Json::Array(items.into_iter().map(json_from_value).collect()),
        serde_json::Value::Object(m) => Json::Object(m.into_iter().map(|(k, v)| (k, json_from_value(v))).collect()),
    }
}

/// `serde_json::from_str::<serde_json::Value>` (serde_json crate), the
/// value converted by `json_from_value`. Trusted: the result is the named
/// result for the text; it depends on the text alone, and the error is
/// dropped.
#[verifier::external_body]
fn parse_json(text: &str) -> (r: Option<Json>)
    ensures
        opt_json_view(r) == json_parse(text@),
{
    serde_json::from_str::<serde_json::Value>(text).ok().map(json_from_value)
}

/// The JSON value a response text stands for: as
/// `spec_parse_response_text` describes, with the trimmed text and its
/// JSON part read by the JSON grammar.
pub open spec fn spec_response_text(text: Seq<char>, status: u16, url: Seq<char>) -> JsonV {
    let t = trim(text);
    spec_parse_response_text(
        text,
        status,
        url,
        json_parse(t),
        match spec_extract_json(t) {
            Some(x) => json_parse(x),
            None => None,
        },
    )
}

/// The JSON value a response text stands for, as `spec_response_text`
/// describes. The request path does not take part.
pub fn parse_response_text(text: &str, status: u16, url: &str, _request_path: &str) -> (r: Json)
    ensures
        r@ == spec_response_text(text@, status, url@),
{
    let (trimmed, extracted) = response_json_texts(text);
    let parsed = parse_json(trimmed.as_str());
    if parsed.is_some() {
        return response_from_parsed(text, status, url, parsed, None);
    }
    let parsed_extracted = match extracted {
        Some(e) => parse_json(e.as_str()),
        None => None,
    };
    response_from_parsed(text, status, url, None, parsed_extracted)
}

} // verus!
