//! Hexadecimal encoding and decoding of bytes, and removal of PKCS#7 padding.
use vstd::prelude::*;
use vstd::utf8::*;
use vstd::string::StringSliceAdditionalSpecFns;
use crate::text::push_char;

verus! {

broadcast use vstd::string::group_string_axioms;

/// The byte `+`.
pub open spec fn plus_byte() -> u8 {
    0x2b
}

/// Whether `b` is an ASCII hexadecimal digit.
pub open spec fn is_hex_byte(b: u8) -> bool {
    (0x30 <= b && b <= 0x39) || (0x61 <= b && b <= 0x66) || (0x41 <= b && b <= 0x46)
}

/// The value of an ASCII hexadecimal digit.
pub open spec fn hex_val(b: u8) -> int {
    if 0x30 <= b && b <= 0x39 {
        b - 0x30
    } else if 0x61 <= b && b <= 0x66 {
        b - 0x61 + 10
    } else {
        b - 0x41 + 10
    }
}

/// Whether `u8::from_str_radix(_, 16)` accepts the two bytes `b0 b1`:
/// two hex digits, or `+` followed by one hex digit.
pub open spec fn pair_ok(b0: u8, b1: u8) -> bool {
    (b0 == plus_byte() && is_hex_byte(b1)) || (is_hex_byte(b0) && is_hex_byte(b1))
}

/// The value `u8::from_str_radix(_, 16)` gives for an accepted pair.
pub open spec fn pair_value(b0: u8, b1: u8) -> int {
    if b0 == plus_byte() {
        hex_val(b1)
    } else {
        16 * hex_val(b0) + hex_val(b1)
    }
}

/// Every pair of `b` is accepted.
pub open spec fn all_pairs_ok(b: Seq<u8>) -> bool {
    forall|k: int| 0 <= k < b.len() / 2 ==> pair_ok(#[trigger] b[2 * k], b[2 * k + 1])
}

/// The bytes that the pairs of `b` decode to.
pub open spec fn decoded_pairs(b: Seq<u8>) -> Seq<u8> {
    Seq::new((b.len() / 2) as nat, |k: int| pair_value(b[2 * k], b[2 * k + 1]) as u8)
}

/// `k` is the first pair of `b` that is not accepted.
pub open spec fn first_bad_pair(b: Seq<u8>, k: int) -> bool {
    &&& 0 <= k < b.len() / 2
    &&& !pair_ok(b[2 * k], b[2 * k + 1])
    &&& forall|j: int| 0 <= j < k ==> pair_ok(#[trigger] b[2 * j], b[2 * j + 1])
}

/// Slicing the text two bytes at a time stops inside a multi-byte character
/// before any pair fails to parse (the inputs on which slicing panics).
pub open spec fn hex_slicing_panics(b: Seq<u8>) -> bool {
    b.len() % 2 == 0 && exists|k: int|
        first_bad_pair(b, k) && 2 * k + 2 < b.len() && is_continuation_byte(#[trigger] b[2 * k + 2])
}

/// What decoding the UTF-8 bytes `b` of a text as hexadecimal gives:
/// `None` for an odd length, `Some(None)` when a pair is not hexadecimal,
/// `Some(Some(bytes))` on success.
pub open spec fn spec_hex_to_bytes(b: Seq<u8>) -> Option<Option<Seq<u8>>> {
    if b.len() % 2 != 0 {
        None
    } else if all_pairs_ok(b) {
        Some(Some(decoded_pairs(b)))
    } else {
        Some(None)
    }
}

fn is_hex_byte_exec(b: u8) -> (r: bool)
    ensures
        r == is_hex_byte(b),
{
    (0x30 <= b && b <= 0x39) || (0x61 <= b && b <= 0x66) || (0x41 <= b && b <= 0x46)
}

fn hex_val_exec(b: u8) -> (r: u8)
    requires
        is_hex_byte(b),
    ensures
        r == hex_val(b),
        r < 16,
{
    if 0x30 <= b && b <= 0x39 {
        b - 0x30
    } else if 0x61 <= b && b <= 0x66 {
        b - 0x61 + 10
    } else {
        b - 0x41 + 10
    }
}

/// Decodes a hexadecimal text two bytes at a time, as
/// `u8::from_str_radix(_, 16)` reads each pair.
/// An odd byte length gives the error `hex 长度异常`; a pair that is not
/// hexadecimal gives `hex 内容异常`.
pub fn hex_to_bytes(input: &str) -> (r: Result<Vec<u8>, String>)
    requires
        !hex_slicing_panics(input.spec_bytes()),
    ensures
        match spec_hex_to_bytes(input.spec_bytes()) {
            None => r matches Err(e) && e@ == "hex 长度异常"@,
            Some(None) => r matches Err(e) && e@ == "hex 内容异常"@,
            Some(Some(v)) => r matches Ok(out) && out@ == v,
        },
{
    let bytes = input.as_bytes();
    let n = bytes.len();
    if n % 2 != 0 {
        return Err("hex 长度异常".to_string());
    }
    let ghost b = bytes@;
    let mut out: Vec<u8> = Vec::new();
    let mut i: usize = 0;
    while i < n
        invariant
            b == input.spec_bytes(),
            bytes@ == b,
            n == b.len(),
            n % 2 == 0,
            i == 2 * out@.len(),
            i <= n,
            forall|j: int| 0 <= j < out@.len() ==> pair_ok(#[trigger] b[2 * j], b[2 * j + 1]),
            forall|j: int|
                0 <= j < out@.len() ==> #[trigger] out@[j] == pair_value(b[2 * j], b[2 * j + 1]),
        decreases n - i,
    {
        let b0 = bytes[i];
        let b1 = bytes[i + 1];
        let ghost k = out@.len() as int;
        if b0 == 0x2b && is_hex_byte_exec(b1) {
            out.push(hex_val_exec(b1));
        } else if is_hex_byte_exec(b0) && is_hex_byte_exec(b1) {
            let hi = hex_val_exec(b0);
            let lo = hex_val_exec(b1);
            out.push(16 * hi + lo);
        } else {
            proof {
                assert(b[2 * k] == b0);
                assert(!all_pairs_ok(b));
            }
            return Err("hex 内容异常".to_string());
        }
        assert(b[2 * k] == b0 && b[2 * k + 1] == b1);
        i = i + 2;
    }
    proof {
        assert(all_pairs_ok(b));
        assert(out@ =~= decoded_pairs(b));
    }
    Ok(out)
}

/// The lower-case hexadecimal digit for a value below 16.
pub open spec fn hex_digit(v: int) -> char {
    if v < 10 {
        ((v + 0x30) as u8) as char
    } else {
        ((v - 10 + 0x61) as u8) as char
    }
}

/// Two lower-case hexadecimal digits per byte (`format!("{:02x}")` each).
pub open spec fn spec_bytes_to_hex(b: Seq<u8>) -> Seq<char>
    decreases b.len(),
{
    if b.len() == 0 {
        Seq::empty()
    } else {
        spec_bytes_to_hex(b.drop_last()) + seq![
            hex_digit(b.last() as int / 16),
            hex_digit(b.last() as int % 16),
        ]
    }
}

fn hex_digit_exec(v: u8) -> (c: char)
    requires
        v < 16,
    ensures
        c == hex_digit(v as int),
{
    if v < 10 {
        (v + 0x30) as char
    } else {
        (v - 10 + 0x61) as char
    }
}

/// The lower-case hexadecimal text of `bytes`.
pub fn bytes_to_hex(bytes: &[u8]) -> (r: String)
    ensures
        r@ == spec_bytes_to_hex(bytes@),
{
    let mut out = String::new();
    let n = bytes.len();
    for i in 0..n
        invariant
            n == bytes@.len(),
            out@ == spec_bytes_to_hex(bytes@.take(i as int)),
    {
        let byte = bytes[i];
        push_char(&mut out, hex_digit_exec(byte / 16));
        push_char(&mut out, hex_digit_exec(byte % 16));
        assert(bytes@.take(i + 1).drop_last() =~= bytes@.take(i as int));
    }
    assert(bytes@.take(n as int) =~= bytes@);
    out
}

/// The shape of the hexadecimal text: two ASCII digits per byte.
proof fn lemma_hex_shape(b: Seq<u8>)
    ensures
        spec_bytes_to_hex(b).len() == 2 * b.len(),
        is_ascii_chars(spec_bytes_to_hex(b)),
        forall|k: int|
            0 <= k < b.len() ==> {
                &&& #[trigger] spec_bytes_to_hex(b)[2 * k] == hex_digit(b[k] as int / 16)
                &&& spec_bytes_to_hex(b)[2 * k + 1] == hex_digit(b[k] as int % 16)
            },
    decreases b.len(),
{
    if b.len() > 0 {
        let p = b.drop_last();
        lemma_hex_shape(p);
        let h = spec_bytes_to_hex(b);
        let tail = seq![hex_digit(b.last() as int / 16), hex_digit(b.last() as int % 16)];
        assert(h == spec_bytes_to_hex(p) + tail);
        assert(is_ascii_chars(tail)) by {
            lemma_hex_digit_byte(b.last() as int / 16);
            lemma_hex_digit_byte(b.last() as int % 16);
        }
        assert forall|k: int| 0 <= k < b.len() implies {
            &&& #[trigger] spec_bytes_to_hex(b)[2 * k] == hex_digit(b[k] as int / 16)
            &&& spec_bytes_to_hex(b)[2 * k + 1] == hex_digit(b[k] as int % 16)
        } by {
            if k < p.len() {
                assert(p[k] == b[k]);
                assert(h[2 * k] == spec_bytes_to_hex(p)[2 * k]);
                assert(h[2 * k + 1] == spec_bytes_to_hex(p)[2 * k + 1]);
            } else {
                assert(h[2 * k] == tail[0]);
                assert(h[2 * k + 1] == tail[1]);
            }
        }
    }
}

/// A hexadecimal digit, as a byte, is accepted and has its value.
proof fn lemma_hex_digit_byte(v: int)
    requires
        0 <= v < 16,
    ensures
        is_hex_byte(hex_digit(v) as u8),
        hex_digit(v) as u8 != plus_byte(),
        hex_val(hex_digit(v) as u8) == v,
        '\0' <= hex_digit(v) <= '\u{7f}',
        ('0' <= hex_digit(v) && hex_digit(v) <= '9') || ('a' <= hex_digit(v) && hex_digit(v) <= 'f'),
{
}

/// Decoding the hexadecimal text of any bytes gives those bytes back, and
/// decoding it never slices inside a character.
pub proof fn law_hex_roundtrip(b: Seq<u8>)
    ensures
        !hex_slicing_panics(encode_utf8(spec_bytes_to_hex(b))),
        spec_hex_to_bytes(encode_utf8(spec_bytes_to_hex(b))) == Some(Some(b)),
{
    let h = spec_bytes_to_hex(b);
    lemma_hex_shape(b);
    is_ascii_chars_encode_utf8(h);
    let e = encode_utf8(h);
    assert forall|k: int| 0 <= k < e.len() / 2 implies pair_ok(#[trigger] e[2 * k], e[2 * k + 1])
        && pair_value(e[2 * k], e[2 * k + 1]) == b[k] by {
        lemma_hex_digit_byte(b[k] as int / 16);
        lemma_hex_digit_byte(b[k] as int % 16);
        assert(e[2 * k] == h[2 * k] as u8);
        assert(e[2 * k + 1] == h[2 * k + 1] as u8);
    }
    assert(decoded_pairs(e) =~= b);
}

/// Decoding a lower-case hexadecimal text of even length never slices
/// inside a character, and encoding the bytes it gives yields the text
/// again.
#[verifier::spinoff_prover]
pub proof fn law_hex_reencode(s: Seq<char>)
    requires
        s.len() % 2 == 0,
        forall|i: int| 0 <= i < s.len() ==> is_lower_hex_char(#[trigger] s[i]),
    ensures
        !hex_slicing_panics(encode_utf8(s)),
        spec_hex_to_bytes(encode_utf8(s)) matches Some(Some(b)) && spec_bytes_to_hex(b) == s,
{
    assert(is_ascii_chars(s)) by {
        assert forall|i: int| 0 <= i < s.len() implies '\0' <= #[trigger] s[i] <= '\u{7f}' by {
            assert(is_lower_hex_char(s[i]));
        }
    }
    is_ascii_chars_encode_utf8(s);
    let e = encode_utf8(s);
    assert forall|k: int| 0 <= k < e.len() / 2 implies pair_ok(#[trigger] e[2 * k], e[2 * k + 1])
        && e[2 * k] != plus_byte() by {
        assert(e[2 * k] == s[2 * k] as u8);
        assert(e[2 * k + 1] == s[2 * k + 1] as u8);
        assert(is_lower_hex_char(s[2 * k]));
        assert(is_lower_hex_char(s[2 * k + 1]));
    }
    assert(all_pairs_ok(e));
    assert(!hex_slicing_panics(e));
    let b = decoded_pairs(e);
    lemma_hex_shape(b);
    let h = spec_bytes_to_hex(b);
    assert forall|k: int| 0 <= k < b.len() implies #[trigger] h[2 * k] == s[2 * k] && h[2 * k + 1]
        == s[2 * k + 1] by {
        lemma_hex_pair_back(e, s, k);
    }
    assert forall|i: int| 0 <= i < s.len() implies h[i] == s[i] by {
        let k = i / 2;
        assert(i == 2 * k || i == 2 * k + 1);
        assert(0 <= k < b.len());
        assert(h[2 * k] == s[2 * k]);
    }
    assert(h =~= s);
}

/// One pair of a lower-case hexadecimal text: the byte it decodes to
/// encodes back to the same two characters.
proof fn lemma_hex_pair_back(e: Seq<u8>, s: Seq<char>, k: int)
    requires
        e.len() == s.len(),
        0 <= k,
        2 * k + 1 < s.len(),
        e[2 * k] == s[2 * k] as u8,
        e[2 * k + 1] == s[2 * k + 1] as u8,
        is_lower_hex_char(s[2 * k]),
        is_lower_hex_char(s[2 * k + 1]),
    ensures
        hex_digit(pair_value(e[2 * k], e[2 * k + 1]) as u8 as int / 16) == s[2 * k],
        hex_digit(pair_value(e[2 * k], e[2 * k + 1]) as u8 as int % 16) == s[2 * k + 1],
{
    let c0 = s[2 * k];
    let c1 = s[2 * k + 1];
    let v0 = hex_val(c0 as u8);
    let v1 = hex_val(c1 as u8);
    assert(0 <= v0 < 16 && 0 <= v1 < 16);
    assert(e[2 * k] != plus_byte());
    let v = pair_value(e[2 * k], e[2 * k + 1]);
    assert(v == 16 * v0 + v1);
    assert(0 <= v < 256);
    assert(v as u8 as int == v);
    assert(v / 16 == v0 && v % 16 == v1) by (nonlinear_arith)
        requires
            v == 16 * v0 + v1,
            0 <= v0 < 16,
            0 <= v1 < 16,
    ;
    assert(hex_digit(v0) == c0);
    assert(hex_digit(v1) == c1);
}

/// Padding `d` with `p` copies of the byte `p` (for `p` from 1 to 16) and
/// removing the padding gives `d` back.
pub proof fn law_pkcs7_strip_padded(d: Seq<u8>, p: u8)
    requires
        1 <= p <= 16,
    ensures
        spec_strip_pkcs7(d + Seq::new(p as nat, |i: int| p)) == d,
{
    let b = d + Seq::new(p as nat, |i: int| p);
    assert(b.last() == p);
    assert(b.take(b.len() - p) =~= d);
}

/// PKCS#7 padding removal as the library applies it: when the last byte `p`
/// is between 1 and 16, no longer than the data, and the last `p` bytes all
/// equal `p`, they are dropped; otherwise the data stays as it is.
pub open spec fn spec_strip_pkcs7(b: Seq<u8>) -> Seq<u8> {
    if b.len() == 0 {
        b
    } else {
        let pad = b.last() as int;
        if pad == 0 || pad > 16 || pad > b.len() {
            b
        } else if forall|i: int| b.len() - pad <= i < b.len() ==> b[i] == pad {
            b.take(b.len() - pad)
        } else {
            b
        }
    }
}

/// Removes PKCS#7 padding in place, as `spec_strip_pkcs7` describes.
pub fn strip_pkcs7_padding(bytes: &mut Vec<u8>)
    ensures
        final(bytes)@ == spec_strip_pkcs7(old(bytes)@),
{
    let n = bytes.len();
    if n == 0 {
        return;
    }
    let last = bytes[n - 1];
    let pad = last as usize;
    if pad == 0 || pad > 16 || pad > n {
        return;
    }
    let start = n - pad;
    let mut all = true;
    let mut i = start;
    while i < n
        invariant
            start <= i <= n,
            n == bytes@.len(),
            start == n - pad,
            all == (forall|j: int| start <= j < i ==> bytes@[j] == pad),
        decreases n - i,
    {
        if bytes[i] as usize != pad {
            all = false;
        }
        i = i + 1;
    }
    if all {
        bytes.truncate(start);
    }
}

/// Bytes without UTF-8 continuation bytes never make hexadecimal decoding
/// slice inside a character.
pub proof fn is_continuation_byte_free(b: Seq<u8>)
    requires
        forall|i: int| 0 <= i < b.len() ==> b[i] < 0x80,
    ensures
        !hex_slicing_panics(b),
{
}

/// A lower-case hexadecimal digit.
pub open spec fn is_lower_hex_char(c: char) -> bool {
    ('0' <= c && c <= '9') || ('a' <= c && c <= 'f')
}

/// The hexadecimal text of any bytes is made of lower-case hexadecimal
/// digits only.
pub proof fn lemma_hex_text_chars(b: Seq<u8>)
    ensures
        forall|i: int|
            0 <= i < spec_bytes_to_hex(b).len() ==> is_lower_hex_char(
                #[trigger] spec_bytes_to_hex(b)[i],
            ),
{
    lemma_hex_shape(b);
    let h = spec_bytes_to_hex(b);
    assert forall|i: int| 0 <= i < h.len() implies is_lower_hex_char(#[trigger] h[i]) by {
        let k = i / 2;
        lemma_hex_digit_byte(b[k] as int / 16);
        lemma_hex_digit_byte(b[k] as int % 16);
        assert(0 <= k < b.len());
        assert(h[2 * k] == hex_digit(b[k] as int / 16));
        assert(h[2 * k + 1] == hex_digit(b[k] as int % 16));
        if i % 2 == 0 {
            assert(i == 2 * k);
        } else {
            assert(i == 2 * k + 1);
        }
    }
}

} // verus!
