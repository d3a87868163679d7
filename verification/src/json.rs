//! The JSON values that the API exchanges, held as plain data, and the
//! ways the client reads them.
use vstd::prelude::*;
use crate::text::{
    ascii_lower_seq, chars_eq, chars_of, push_char, to_ascii_lower_chars, trim, trim_chars, Trim,
};

verus! {

broadcast use vstd::string::group_string_axioms;

/// A JSON number: its value when it is an integer that fits in `i64`, and
/// its text as serde_json writes it.
pub struct JsonNumber {
    pub int: Option<i64>,
    pub text: String,
}

/// A JSON value. Object members keep their order.
pub enum Json {
    Null,
    Bool(bool),
    Number(JsonNumber),
    Str(String),
    Array(Vec<Json>),
    Object(Vec<(String, Json)>),
}

/// The mathematical model of a JSON value.
pub enum JsonV {
    Null,
    Bool(bool),
    Number(Option<i64>, Seq<char>),
    Str(Seq<char>),
    Array(Seq<JsonV>),
    Object(Seq<(Seq<char>, JsonV)>),
}

/// The model of a JSON value.
pub open spec fn json_view(j: Json) -> JsonV
    decreases j,
{
    match j {
        Json::Null => JsonV::Null,
        Json::Bool(b) => JsonV::Bool(b),
        Json::Number(n) => JsonV::Number(n.int, n.text@),
        Json::Str(s) => JsonV::Str(s@),
        Json::Array(items) => JsonV::Array(
            Seq::new(
                items@.len(),
                |i: int|
                    if 0 <= i < items@.len() {
                        json_view(items@[i])
                    } else {
                        JsonV::Null
                    },
            ),
        ),
        Json::Object(members) => JsonV::Object(
            Seq::new(
                members@.len(),
                |i: int|
                    if 0 <= i < members@.len() {
                        (members@[i].0@, json_view(members@[i].1))
                    } else {
                        (Seq::empty(), JsonV::Null)
                    },
            ),
        ),
    }
}

impl View for Json {
    type V = JsonV;

    open spec fn view(&self) -> JsonV {
        json_view(*self)
    }
}

/// The models of a list of JSON values.
pub open spec fn json_views(v: Seq<Json>) -> Seq<JsonV> {
    v.map_values(|j: Json| j@)
}

/// The index of the first member named `key` at or after `i`.
pub open spec fn member_index(members: Seq<(Seq<char>, JsonV)>, key: Seq<char>, i: int) -> Option<
    int,
>
    decreases members.len() - i,
{
    if i < 0 || i >= members.len() {
        None
    } else if members[i].0 == key {
        Some(i)
    } else {
        member_index(members, key, i + 1)
    }
}

/// `value.get(key)`: the member named `key` of an object; `None` for a
/// value that is not an object or has no such member.
pub open spec fn json_get(value: JsonV, key: Seq<char>) -> Option<JsonV> {
    match value {
        JsonV::Object(members) => match member_index(members, key, 0) {
            Some(i) => Some(members[i].1),
            None => None,
        },
        _ => None,
    }
}

/// `value.get(key)`, as `json_get` describes.
pub fn get<'a>(value: &'a Json, key: &str) -> (r: Option<&'a Json>)
    ensures
        match json_get(value@, key@) {
            Some(v) => r matches Some(x) && x@ == v,
            None => r is None,
        },
{
    match value {
        Json::Object(members) => {
            let ghost ms = match value@ {
                JsonV::Object(m) => m,
                _ => Seq::empty(),
            };
            assert(ms.len() == members@.len());
            let k = chars_of(key);
            let n = members.len();
            for i in 0..n
                invariant
                    n == members@.len(),
                    n == ms.len(),
                    value@ == JsonV::Object(ms),
                    forall|j: int| 0 <= j < n ==> #[trigger] ms[j] == (members@[j].0@, json_view(members@[j].1)),
                    k@ == key@,
                    member_index(ms, key@, 0) == member_index(ms, key@, i as int),
            {
                let name = chars_of(members[i].0.as_str());
                if chars_eq(name.as_slice(), k.as_slice()) {
                    assert(ms[i as int] == (members@[i as int].0@, json_view(members@[i as int].1)));
                    assert(member_index(ms, key@, i as int) == Some(i as int));
                    return Some(&members[i].1);
                }
                assert(ms[i as int] == (members@[i as int].0@, json_view(members@[i as int].1)));
            }
            None
        },
        _ => None,
    }
}

/// `Value::as_str`.
pub open spec fn json_as_str(value: Option<JsonV>) -> Option<Seq<char>> {
    match value {
        Some(JsonV::Str(s)) => Some(s),
        _ => None,
    }
}

/// `Value::as_bool`.
pub open spec fn json_as_bool(value: Option<JsonV>) -> Option<bool> {
    match value {
        Some(JsonV::Bool(b)) => Some(b),
        _ => None,
    }
}

/// `Value::as_i64`.
pub open spec fn json_as_i64(value: Option<JsonV>) -> Option<i64> {
    match value {
        Some(JsonV::Number(i, _)) => i,
        _ => None,
    }
}

/// The decimal digits of a natural number.
pub open spec fn decimal(n: nat) -> Seq<char>
    decreases n,
{
    if n < 10 {
        seq![((n + 0x30) as u8) as char]
    } else {
        decimal(n / 10).push((((n % 10) + 0x30) as u8) as char)
    }
}

/// The decimal text of `n`.
pub fn decimal_string(n: u64) -> (r: String)
    ensures
        r@ == decimal(n as nat),
    decreases n,
{
    if n < 10 {
        let mut s = String::new();
        push_char(&mut s, ((n as u8) + 0x30) as char);
        s
    } else {
        let mut s = decimal_string(n / 10);
        push_char(&mut s, (((n % 10) as u8) + 0x30) as char);
        s
    }
}

/// The JSON number for `n`.
pub fn number_u16(n: u16) -> (r: Json)
    ensures
        r@ == JsonV::Number(Some(n as i64), decimal(n as nat)),
{
    Json::Number(JsonNumber { int: Some(n as i64), text: decimal_string(n as u64) })
}

/// The JSON string holding `s`.
pub fn string_value(s: &str) -> (r: Json)
    ensures
        r@ == JsonV::Str(s@),
{
    Json::Str(s.to_string())
}

/// The words that read as `true`, in lower case.
pub open spec fn is_true_word(w: Seq<char>) -> bool {
    w == "1"@ || w == "true"@ || w == "yes"@ || w == "on"@ || w == "success"@ || w == "ok"@
}

/// The words that read as `false`, in lower case.
pub open spec fn is_false_word(w: Seq<char>) -> bool {
    w == "0"@ || w == "false"@ || w == "no"@ || w == "off"@ || w == "fail"@ || w == "failed"@
        || w == "error"@
}

/// A text read as a flag: trimmed and lower-cased, one of the true or false
/// words.
pub open spec fn spec_text_to_bool(s: Seq<char>) -> Option<bool> {
    let w = ascii_lower_seq(trim(s));
    if is_true_word(w) {
        Some(true)
    } else if is_false_word(w) {
        Some(false)
    } else {
        None
    }
}

/// A JSON value read as a flag: a boolean as it is, a number as "not zero"
/// (zero when it is not an `i64`), a text as `spec_text_to_bool` says.
pub open spec fn spec_value_to_bool(v: JsonV) -> Option<bool> {
    match v {
        JsonV::Bool(b) => Some(b),
        JsonV::Number(i, _) => Some(
            match i {
                Some(i) => i != 0,
                None => false,
            },
        ),
        JsonV::Str(s) => spec_text_to_bool(s),
        _ => None,
    }
}

fn eq_lit(w: &[char], lit: &str) -> (r: bool)
    ensures
        r == (w@ == lit@),
{
    let l = chars_of(lit);
    chars_eq(w, l.as_slice())
}

/// A text read as a flag, as `spec_text_to_bool` describes.
pub fn text_to_bool(s: &str) -> (r: Option<bool>)
    ensures
        r == spec_text_to_bool(s@),
{
    let c = chars_of(s);
    let t = trim_chars(c.as_slice(), Trim::Whitespace);
    let w = to_ascii_lower_chars(t.as_slice());
    let w = w.as_slice();
    if eq_lit(w, "1") || eq_lit(w, "true") || eq_lit(w, "yes") || eq_lit(w, "on") || eq_lit(
        w,
        "success",
    ) || eq_lit(w, "ok") {
        Some(true)
    } else if eq_lit(w, "0") || eq_lit(w, "false") || eq_lit(w, "no") || eq_lit(w, "off")
        || eq_lit(w, "fail") || eq_lit(w, "failed") || eq_lit(w, "error") {
        Some(false)
    } else {
        None
    }
}

/// A JSON value read as a flag, as `spec_value_to_bool` describes.
pub fn value_to_bool(v: &Json) -> (r: Option<bool>)
    ensures
        r == spec_value_to_bool(v@),
{
    match v {
        Json::Bool(b) => Some(*b),
        Json::Number(n) => Some(
            match n.int {
                Some(i) => i != 0,
                None => false,
            },
        ),
        Json::Str(s) => text_to_bool(s.as_str()),
        _ => None,
    }
}

pub open spec fn is_digit(c: char) -> bool {
    '0' <= c && c <= '9'
}

/// The value of a string of decimal digits.
pub open spec fn digits_value(d: Seq<char>) -> int
    decreases d.len(),
{
    if d.len() == 0 {
        0
    } else {
        10 * digits_value(d.drop_last()) + ((d.last() as u32) - 0x30)
    }
}

pub open spec fn all_digits(d: Seq<char>) -> bool {
    d.len() > 0 && forall|i: int| 0 <= i < d.len() ==> is_digit(#[trigger] d[i])
}

/// `str::parse::<i64>`: an optional sign, then one or more decimal
/// digits, within the range of `i64`.
pub open spec fn spec_parse_i64(s: Seq<char>) -> Option<i64> {
    if s.len() > 0 && s[0] == '-' {
        let d = s.drop_first();
        if all_digits(d) && digits_value(d) <= 0x8000_0000_0000_0000 {
            Some((-digits_value(d)) as i64)
        } else {
            None
        }
    } else {
        let d = if s.len() > 0 && s[0] == '+' {
            s.drop_first()
        } else {
            s
        };
        if all_digits(d) && digits_value(d) <= 0x7fff_ffff_ffff_ffff {
            Some(digits_value(d) as i64)
        } else {
            None
        }
    }
}

proof fn lemma_digits_prefix(d: Seq<char>, k: int)
    requires
        forall|i: int| 0 <= i < d.len() ==> is_digit(#[trigger] d[i]),
        0 <= k <= d.len(),
    ensures
        0 <= digits_value(d.take(k)) <= digits_value(d),
    decreases d.len(),
{
    if k == d.len() {
        assert(d.take(k) =~= d);
        if d.len() > 0 {
            lemma_digits_prefix(d.drop_last(), 0);
        }
    } else {
        let p = d.drop_last();
        assert(p.take(k) =~= d.take(k));
        lemma_digits_prefix(p, k);
        assert(is_digit(d[d.len() - 1]));
    }
}

/// Parses a decimal `i64`, as `str::parse::<i64>` does.
#[verifier::loop_isolation(false)]
pub fn parse_i64(s: &str) -> (r: Option<i64>)
    ensures
        r == spec_parse_i64(s@),
{
    let c = chars_of(s);
    let n = c.len();
    let neg = n > 0 && c[0] == '-';
    let start: usize = if n > 0 && (c[0] == '-' || c[0] == '+') {
        1
    } else {
        0
    };
    let ghost d = c@.skip(start as int);
    proof {
        if start == 1 {
            assert(d =~= c@.drop_first());
        } else {
            assert(d =~= c@);
        }
    }
    if start == n {
        return None;
    }
    let limit: u128 = 0x8000_0000_0000_0000;
    let mut acc: u128 = 0;
    let mut i = start;
    assert(d.take(0) =~= Seq::<char>::empty());
    while i < n
        invariant
            start <= i <= n,
            n == c@.len(),
            d == c@.skip(start as int),
            acc <= limit,
            acc == digits_value(d.take(i - start)),
            forall|j: int| 0 <= j < i - start ==> is_digit(#[trigger] d[j]),
        decreases n - i,
    {
        let ch = c[i];
        assert(d[i - start] == ch);
        if !('0' <= ch && ch <= '9') {
            assert(!is_digit(d[i - start]));
            assert(!all_digits(d));
            return None;
        }
        let dig = (ch as u32) - 0x30;
        assert(d.take(i + 1 - start).drop_last() =~= d.take(i - start));
        assert(acc * 10 <= 0x8000_0000_0000_0000 * 10) by (nonlinear_arith)
            requires
                acc <= 0x8000_0000_0000_0000,
        ;
        assert(dig <= 9);
        let next = acc * 10 + (dig as u128);
        if next > limit {
            proof {
                if all_digits(d) {
                    lemma_digits_prefix(d, i + 1 - start);
                }
                assert(!all_digits(d) || digits_value(d) > limit);
            }
            return None;
        }
        acc = next;
        i = i + 1;
    }
    assert(d.take(n - start) =~= d);
    if neg {
        if acc == limit {
            Some(i64::MIN)
        } else {
            Some(-(acc as i64))
        }
    } else if acc == limit {
        None
    } else {
        Some(acc as i64)
    }
}

/// A JSON value read as an integer (`value_to_i64` of the backend): an
/// `i64` number, a text that parses after trimming, or a boolean as 1 or 0.
pub open spec fn spec_value_to_i64(v: JsonV) -> Option<i64> {
    match v {
        JsonV::Number(i, _) => i,
        JsonV::Str(s) => spec_parse_i64(trim(s)),
        JsonV::Bool(b) => Some(
            if b {
                1
            } else {
                0
            },
        ),
        _ => None,
    }
}

/// A JSON value read as an integer, as `spec_value_to_i64` describes.
pub fn value_to_i64(v: &Json) -> (r: Option<i64>)
    ensures
        r == spec_value_to_i64(v@),
{
    match v {
        Json::Number(n) => n.int,
        Json::Str(s) => {
            let c = chars_of(s.as_str());
            let t = crate::text::string_of(trim_chars(c.as_slice(), Trim::Whitespace).as_slice());
            parse_i64(t.as_str())
        },
        Json::Bool(b) => Some(
            if *b {
                1
            } else {
                0
            },
        ),
        _ => None,
    }
}

/// A request parameter value: plain text, or a nested JSON value that is
/// sent as its JSON text.
pub enum ParamValue<'a> {
    Text(String),
    Encoded(&'a Json),
}

/// How a JSON value becomes a request parameter: null is left out; a text
/// as it is; a number as its text; a boolean as `1` or `0`; an array or
/// object as its JSON text.
pub open spec fn param_matches(v: JsonV, p: Option<ParamValue>) -> bool {
    match v {
        JsonV::Null => p is None,
        JsonV::Str(s) => p matches Some(ParamValue::Text(t)) && t@ == s,
        JsonV::Number(_, text) => p matches Some(ParamValue::Text(t)) && t@ == text,
        JsonV::Bool(b) => p matches Some(ParamValue::Text(t)) && t@ == (if b {
            "1"@
        } else {
            "0"@
        }),
        _ => p matches Some(ParamValue::Encoded(j)) && j@ == v,
    }
}

/// The request parameter for `value`, as `param_matches` describes.
pub fn value_to_param<'a>(value: &'a Json) -> (r: Option<ParamValue<'a>>)
    ensures
        param_matches(value@, r),
{
    match value {
        Json::Null => None,
        Json::Str(s) => Some(ParamValue::Text(s.clone())),
        Json::Number(n) => Some(ParamValue::Text(n.text.clone())),
        Json::Bool(b) => Some(
            ParamValue::Text(
                if *b {
                    "1".to_string()
                } else {
                    "0".to_string()
                },
            ),
        ),
        _ => Some(ParamValue::Encoded(value)),
    }
}

/// The models of object members.
pub open spec fn members_view(m: Seq<(String, Json)>) -> Seq<(Seq<char>, JsonV)> {
    m.map_values(|p: (String, Json)| (p.0@, p.1@))
}

/// The JSON object with the given members.
pub fn object(members: Vec<(String, Json)>) -> (r: Json)
    ensures
        r@ == JsonV::Object(members_view(members@)),
{
    let r = Json::Object(members);
    assert(match r@ {
        JsonV::Object(m) => m =~= members_view(members@),
        _ => false,
    });
    r
}

/// The JSON array with the given items.
pub fn array(items: Vec<Json>) -> (r: Json)
    ensures
        r@ == JsonV::Array(json_views(items@)),
{
    let r = Json::Array(items);
    assert(match r@ {
        JsonV::Array(m) => m =~= json_views(items@),
        _ => false,
    });
    r
}

/// The decimal text of an integer, with `-` before a negative one.
pub open spec fn int_text(n: int) -> Seq<char> {
    if n < 0 {
        seq!['-'] + decimal((-n) as nat)
    } else {
        decimal(n as nat)
    }
}

/// The decimal text of `n` (`i64::to_string`).
pub fn i64_string(n: i64) -> (r: String)
    ensures
        r@ == int_text(n as int),
{
    if n < 0 {
        let m: u64 = if n == i64::MIN {
            0x8000_0000_0000_0000u64
        } else {
            (-n) as u64
        };
        let digits = decimal_string(m);
        let mut s = String::new();
        crate::text::push_char(&mut s, '-');
        let c = crate::text::chars_of(digits.as_str());
        let all = crate::text::concat_chars(crate::text::chars_of(s.as_str()).as_slice(), c.as_slice());
        assert(seq!['-'] =~= s@);
        crate::text::string_of(all.as_slice())
    } else {
        decimal_string(n as u64)
    }
}

} // verus!
