//! The hosting provider's anti-bot challenge: a script that decrypts, with
//! AES in CBC mode, the value of a `__test` cookie from hexadecimal
//! parameters `a` (key), `b` (IV) and `c` (ciphertext). The client finds the
//! parameters, decrypts, and answers with the cookie.
use vstd::prelude::*;
use vstd::utf8::*;
use cbc::cipher::{block_padding::NoPadding, BlockDecryptMut, KeyIvInit};
use crate::hex::{
    bytes_to_hex, hex_to_bytes, hex_slicing_panics, is_continuation_byte_free, spec_bytes_to_hex,
    spec_hex_to_bytes, spec_strip_pkcs7, strip_pkcs7_padding,
};
use crate::json::{decimal, decimal_string};
use crate::text::{chars_of, concat_chars, occurs_at, string_of};

verus! {

broadcast use vstd::string::group_string_axioms;

/// A non-empty text of ASCII hexadecimal digits.
pub open spec fn is_hex_text(s: Seq<char>) -> bool {
    s.len() > 0 && forall|i: int|
        0 <= i < s.len() ==> ('0' <= #[trigger] s[i] <= '9' || 'a' <= s[i] <= 'f' || 'A' <= s[i]
            <= 'F')
}

/// What the challenge pattern
/// `(?s)\ba\s*=\s*toNumbers\("([0-9a-fA-F]+)"\).*?\bb\s*=\s*toNumbers\("([0-9a-fA-F]+)"\).*?\bc\s*=\s*toNumbers\("([0-9a-fA-F]+)"\)`
/// captures in a script: the `a`, `b` and `c` hexadecimal texts.
pub uninterp spec fn challenge_captures(script: Seq<char>) -> Option<(Seq<char>, Seq<char>, Seq<char>)>;

/// An ASCII hexadecimal digit.
pub open spec fn is_hex_char(c: char) -> bool {
    ('0' <= c <= '9') || ('a' <= c <= 'f') || ('A' <= c <= 'F')
}

/// The length of the run of hexadecimal digits of `s` from `i`.
pub open spec fn hex_run(s: Seq<char>, i: int) -> nat
    decreases s.len() - i,
{
    if 0 <= i < s.len() && is_hex_char(s[i]) {
        1 + hex_run(s, i + 1)
    } else {
        0
    }
}

/// Where a match of `toNumbers("<digits>")` that starts at `i` ends, when
/// one does: the digits are the whole run of hexadecimal digits after the
/// opening, at least one, followed by `")` (a shorter run is followed by a
/// digit, not by the quote).
pub open spec fn to_numbers_end(s: Seq<char>, i: int) -> Option<int> {
    if occurs_at(s, "toNumbers(\""@, i) {
        let n = hex_run(s, i + 11);
        if n > 0 && occurs_at(s, "\")"@, i + 11 + n) {
            Some(i + 11 + n + 2)
        } else {
            None
        }
    } else {
        None
    }
}

/// The digits of each match of the pattern `toNumbers\("([0-9a-fA-F]+)"\)`
/// in `s` from `i` on, in order: the leftmost match, then the search goes
/// on after it.
pub open spec fn to_numbers_from(s: Seq<char>, i: int) -> Seq<Seq<char>>
    decreases (if i < s.len() {
        s.len() - i
    } else {
        0
    }),
{
    if i < 0 || i >= s.len() {
        Seq::empty()
    } else {
        match to_numbers_end(s, i) {
            Some(e) => seq![s.subrange(i + 11, e - 2)] + to_numbers_from(s, e),
            None => to_numbers_from(s, i + 1),
        }
    }
}

/// What the pattern `toNumbers\("([0-9a-fA-F]+)"\)` captures in a script,
/// for each match in order.
pub open spec fn to_numbers_captures(script: Seq<char>) -> Seq<Seq<char>> {
    to_numbers_from(script, 0)
}

proof fn lemma_hex_run(s: Seq<char>, i: int)
    requires
        0 <= i,
    ensures
        i + hex_run(s, i) <= s.len() || hex_run(s, i) == 0,
        forall|k: int| 0 <= k < hex_run(s, i) ==> is_hex_char(#[trigger] s[i + k]),
    decreases s.len() - i,
{
    if 0 <= i < s.len() && is_hex_char(s[i]) {
        lemma_hex_run(s, i + 1);
        assert forall|k: int| 0 <= k < hex_run(s, i) implies is_hex_char(#[trigger] s[i + k]) by {
            if k > 0 {
                assert(s[i + k] == s[(i + 1) + (k - 1)]);
            }
        }
    }
}

/// Every captured text is a non-empty run of hexadecimal digits.
proof fn lemma_to_numbers_hex(s: Seq<char>, i: int)
    ensures
        forall|j: int| 0 <= j < to_numbers_from(s, i).len() ==> is_hex_text(#[trigger] to_numbers_from(s, i)[j]),
    decreases (if i < s.len() {
        s.len() - i
    } else {
        0
    }),
{
    reveal_strlit("\")");
    if i < 0 || i >= s.len() {
    } else {
        match to_numbers_end(s, i) {
            Some(e) => {
                let n = hex_run(s, i + 11);
                assert(e == i + 11 + n + 2);
                assert(e <= s.len());
                assert(n > 0);
                lemma_hex_run(s, i + 11);
                lemma_to_numbers_hex(s, e);
                let d = s.subrange(i + 11, e - 2);
                assert(is_hex_text(d)) by {
                    assert forall|k: int| 0 <= k < d.len() implies ('0' <= #[trigger] d[k] <= '9' || 'a' <= d[k] <= 'f' || 'A' <= d[k] <= 'F') by {
                        assert(d[k] == s[i + 11 + k]);
                        assert(is_hex_char(s[(i + 11) + k]));
                    }
                }
                let all = to_numbers_from(s, i);
                let rest = to_numbers_from(s, e);
                assert(all == seq![d] + rest);
                assert forall|j: int| 0 <= j < all.len() implies is_hex_text(#[trigger] all[j]) by {
                    if j > 0 {
                        assert(all[j] == rest[j - 1]);
                    }
                }
            },
            None => {
                lemma_to_numbers_hex(s, i + 1);
                assert(to_numbers_from(s, i) == to_numbers_from(s, i + 1));
            },
        }
    }
}

/// `Regex::captures` with the challenge pattern (regex crate). Trusted: the
/// result is the named result for the script, and every captured text is a
/// non-empty run of hexadecimal digits, as the pattern's groups require.
#[verifier::external_body]
fn capture_challenge(script: &str) -> (r: Option<(String, String, String)>)
    ensures
        match challenge_captures(script@) {
            Some((a, b, c)) => r matches Some((x, y, z)) && x@ == a && y@ == b && z@ == c,
            None => r is None,
        },
        r matches Some((x, y, z)) ==> is_hex_text(x@) && is_hex_text(y@) && is_hex_text(z@),
{
    let re = regex::Regex::new(
        r#"(?s)\ba\s*=\s*toNumbers\("([0-9a-fA-F]+)"\).*?\bb\s*=\s*toNumbers\("([0-9a-fA-F]+)"\).*?\bc\s*=\s*toNumbers\("([0-9a-fA-F]+)"\)"#,
    ).expect("valid vmhost challenge regex");
    re.captures(script).map(|caps| (caps[1].to_string(), caps[2].to_string(), caps[3].to_string()))
}

/// `Regex::captures_iter` with the `toNumbers("...")` pattern (regex crate).
/// Trusted: the captured texts are those `to_numbers_captures` describes:
/// the regex crate reports the leftmost-first match and resumes after it,
/// and a match of this pattern at a place is decided by the run of digits
/// there, as `to_numbers_end` says.
#[verifier::external_body]
fn capture_to_numbers(script: &str) -> (r: Vec<String>)
    ensures
        r@.len() == to_numbers_captures(script@).len(),
        forall|i: int| 0 <= i < r@.len() ==> #[trigger] r@[i]@ == to_numbers_captures(script@)[i],
{
    let re = regex::Regex::new(r#"toNumbers\("([0-9a-fA-F]+)"\)"#).expect("valid toNumbers regex");
    re.captures_iter(script).map(|caps| caps[1].to_string()).collect()
}

/// The texts of at least 32 characters among `vs`, in order.
pub open spec fn long_values(vs: Seq<Seq<char>>) -> Seq<Seq<char>>
    decreases vs.len(),
{
    if vs.len() == 0 {
        vs
    } else {
        let p = long_values(vs.drop_last());
        if vs.last().len() >= 32 {
            p.push(vs.last())
        } else {
            p
        }
    }
}

/// The challenge parameters `a`, `b`, `c` from what the two patterns
/// captured: those of the challenge pattern, else the first three
/// `toNumbers("...")` values of at least 32 characters.
pub open spec fn spec_pick_params(
    found: Option<(Seq<char>, Seq<char>, Seq<char>)>,
    values: Seq<Seq<char>>,
) -> Option<(Seq<char>, Seq<char>, Seq<char>)> {
    match found {
        Some(t) => Some(t),
        None => {
            let vs = long_values(values);
            if vs.len() >= 3 {
                Some((vs[0], vs[1], vs[2]))
            } else {
                None
            }
        },
    }
}

/// The challenge parameters of a script.
pub open spec fn spec_extract_vmhost_params(script: Seq<char>) -> Option<
    (Seq<char>, Seq<char>, Seq<char>),
> {
    spec_pick_params(challenge_captures(script), to_numbers_captures(script))
}

/// The texts of a captured triple.
pub open spec fn triple_view(t: Option<(String, String, String)>) -> Option<
    (Seq<char>, Seq<char>, Seq<char>),
> {
    match t {
        Some((a, b, c)) => Some((a@, b@, c@)),
        None => None,
    }
}

proof fn lemma_long_values_hex(vs: Seq<Seq<char>>)
    requires
        forall|i: int| 0 <= i < vs.len() ==> is_hex_text(#[trigger] vs[i]),
    ensures
        forall|i: int| 0 <= i < long_values(vs).len() ==> is_hex_text(#[trigger] long_values(vs)[i]),
    decreases vs.len(),
{
    if vs.len() > 0 {
        lemma_long_values_hex(vs.drop_last());
        let p = long_values(vs.drop_last());
        assert forall|i: int| 0 <= i < long_values(vs).len() implies is_hex_text(
            #[trigger] long_values(vs)[i],
        ) by {
            if i < p.len() {
                assert(long_values(vs)[i] == p[i]);
            }
        }
    }
}

/// Picks the challenge parameters from what the two patterns captured, as
/// `spec_pick_params` describes; when every captured text is hexadecimal,
/// so is each parameter.
pub fn pick_vmhost_params(found: Option<(String, String, String)>, values: Vec<String>) -> (r:
    Option<(String, String, String)>)
    ensures
        triple_view(r) == spec_pick_params(triple_view(found), values@.map_values(|s: String| s@)),
        (forall|i: int| 0 <= i < values@.len() ==> is_hex_text(#[trigger] values@[i]@)) && (
        found matches Some((x, y, z)) ==> is_hex_text(x@) && is_hex_text(y@) && is_hex_text(z@))
            ==> (r matches Some((x, y, z)) ==> is_hex_text(x@) && is_hex_text(y@) && is_hex_text(
            z@)),
{
    if let Some(t) = found {
        return Some(t);
    }
    let ghost all = values@.map_values(|s: String| s@);
    let mut long: Vec<String> = Vec::new();
    let n = values.len();
    for i in 0..n
        invariant
            n == values@.len(),
            n == all.len(),
            forall|j: int| 0 <= j < n ==> #[trigger] values@[j]@ == all[j],
            long@.map_values(|s: String| s@) == long_values(all.take(i as int)),
    {
        assert(all.take(i + 1).drop_last() =~= all.take(i as int));
        let v = chars_of(values[i].as_str());
        if v.len() >= 32 {
            let ghost before = long@;
            long.push(values[i].clone());
            assert(long@.map_values(|s: String| s@) =~= before.map_values(|s: String| s@).push(
                values@[i as int]@,
            ));
        }
    }
    assert(all.take(n as int) =~= all);
    proof {
        if forall|i: int| 0 <= i < values@.len() ==> is_hex_text(#[trigger] values@[i]@) {
            assert forall|i: int| 0 <= i < all.len() implies is_hex_text(#[trigger] all[i]) by {
                assert(values@[i]@ == all[i]);
            }
            lemma_long_values_hex(all);
        }
    }
    if long.len() >= 3 {
        assert(long@.map_values(|s: String| s@)[0] == long@[0]@);
        assert(long@.map_values(|s: String| s@)[1] == long@[1]@);
        assert(long@.map_values(|s: String| s@)[2] == long@[2]@);
        Some((long[0].clone(), long[1].clone(), long[2].clone()))
    } else {
        None
    }
}

/// The challenge parameters of `script`, as `spec_extract_vmhost_params`
/// describes; each is a non-empty hexadecimal text.
pub fn extract_vmhost_params(script: &str) -> (r: Option<(String, String, String)>)
    ensures
        match spec_extract_vmhost_params(script@) {
            Some((a, b, c)) => r matches Some((x, y, z)) && x@ == a && y@ == b && z@ == c,
            None => r is None,
        },
        r matches Some((x, y, z)) ==> is_hex_text(x@) && is_hex_text(y@) && is_hex_text(z@),
{
    let found = capture_challenge(script);
    let values = capture_to_numbers(script);
    proof {
        lemma_to_numbers_hex(script@, 0);
    }
    assert(values@.map_values(|s: String| s@) =~= to_numbers_captures(script@));
    assert forall|i: int| 0 <= i < values@.len() implies is_hex_text(#[trigger] values@[i]@) by {
        assert(values@[i]@ == to_numbers_captures(script@)[i]);
    }
    pick_vmhost_params(found, values)
}

/// What AES-128 in CBC mode without padding decrypts `data` to.
pub uninterp spec fn aes128_cbc_decrypt(key: Seq<u8>, iv: Seq<u8>, data: Seq<u8>) -> Seq<u8>;

/// What AES-192 in CBC mode without padding decrypts `data` to.
pub uninterp spec fn aes192_cbc_decrypt(key: Seq<u8>, iv: Seq<u8>, data: Seq<u8>) -> Seq<u8>;

/// What AES-256 in CBC mode without padding decrypts `data` to.
pub uninterp spec fn aes256_cbc_decrypt(key: Seq<u8>, iv: Seq<u8>, data: Seq<u8>) -> Seq<u8>;

/// `cbc::Decryptor::<Aes128>::new_from_slices` then
/// `decrypt_padded_vec_mut::<NoPadding>` (cbc, aes, cipher crates). Trusted:
/// with a 16-byte key, a 16-byte IV and whole blocks neither call fails
/// (their source checks exactly these lengths), and the plaintext is the
/// named result, as long as the ciphertext.
#[verifier::external_body]
fn decrypt_aes128_cbc(key: &[u8], iv: &[u8], data: &[u8]) -> (r: Vec<u8>)
    requires
        key@.len() == 16,
        iv@.len() == 16,
        data@.len() % 16 == 0,
    ensures
        r@ == aes128_cbc_decrypt(key@, iv@, data@),
        r@.len() == data@.len(),
{
    match cbc::Decryptor::<aes::Aes128>::new_from_slices(key, iv) {
        Ok(d) => match d.decrypt_padded_vec_mut::<NoPadding>(data) {
            Ok(plain) => plain,
            Err(_) => Vec::new(),
        },
        Err(_) => Vec::new(),
    }
}

/// As `decrypt_aes128_cbc`, with AES-192 and a 24-byte key.
#[verifier::external_body]
fn decrypt_aes192_cbc(key: &[u8], iv: &[u8], data: &[u8]) -> (r: Vec<u8>)
    requires
        key@.len() == 24,
        iv@.len() == 16,
        data@.len() % 16 == 0,
    ensures
        r@ == aes192_cbc_decrypt(key@, iv@, data@),
        r@.len() == data@.len(),
{
    match cbc::Decryptor::<aes::Aes192>::new_from_slices(key, iv) {
        Ok(d) => match d.decrypt_padded_vec_mut::<NoPadding>(data) {
            Ok(plain) => plain,
            Err(_) => Vec::new(),
        },
        Err(_) => Vec::new(),
    }
}

/// As `decrypt_aes128_cbc`, with AES-256 and a 32-byte key.
#[verifier::external_body]
fn decrypt_aes256_cbc(key: &[u8], iv: &[u8], data: &[u8]) -> (r: Vec<u8>)
    requires
        key@.len() == 32,
        iv@.len() == 16,
        data@.len() % 16 == 0,
    ensures
        r@ == aes256_cbc_decrypt(key@, iv@, data@),
        r@.len() == data@.len(),
{
    match cbc::Decryptor::<aes::Aes256>::new_from_slices(key, iv) {
        Ok(d) => match d.decrypt_padded_vec_mut::<NoPadding>(data) {
            Ok(plain) => plain,
            Err(_) => Vec::new(),
        },
        Err(_) => Vec::new(),
    }
}

/// A hexadecimal text read as bytes, with the messages `hex_to_bytes` gives.
pub open spec fn hex_result(s: Seq<char>) -> Result<Seq<u8>, Seq<char>> {
    match spec_hex_to_bytes(encode_utf8(s)) {
        None => Err("hex 长度异常"@),
        Some(None) => Err("hex 内容异常"@),
        Some(Some(b)) => Ok(b),
    }
}

/// The cookie for a decrypted challenge value: `__test=` and the
/// lower-case hexadecimal of the value without its PKCS#7 padding.
pub open spec fn spec_cookie_from_plaintext(plain: Seq<u8>) -> Seq<char> {
    "__test="@ + spec_bytes_to_hex(spec_strip_pkcs7(plain))
}

/// The cookie for a decrypted challenge value, as
/// `spec_cookie_from_plaintext` describes.
pub fn vmhost_cookie_from_plaintext(plain: Vec<u8>) -> (r: String)
    ensures
        r@ == spec_cookie_from_plaintext(plain@),
{
    let mut plain = plain;
    strip_pkcs7_padding(&mut plain);
    let hex = bytes_to_hex(plain.as_slice());
    let cookie = concat_chars(chars_of("__test=").as_slice(), chars_of(hex.as_str()).as_slice());
    string_of(cookie.as_slice())
}

/// The `__test` cookie a challenge script computes, or why it cannot be
/// computed: parameters missing, a parameter that is not hexadecimal, an IV
/// that is not 16 bytes, a ciphertext that is not whole blocks, or a key
/// that is not 16, 24 or 32 bytes.
pub open spec fn spec_solve_vmhost_cookie(script: Seq<char>) -> Result<Seq<char>, Seq<char>> {
    match spec_extract_vmhost_params(script) {
        None => Err("识别到 vmhost 防护页，但未找到 a/b/c 参数"@),
        Some((a, b, c)) => match (hex_result(a), hex_result(b), hex_result(c)) {
            (Err(e), _, _) => Err(e),
            (Ok(_), Err(e), _) => Err(e),
            (Ok(_), Ok(_), Err(e)) => Err(e),
            (Ok(key), Ok(iv), Ok(data)) => if iv.len() != 16 {
                Err("vmhost 防护页 IV 长度异常"@)
            } else if data.len() % 16 != 0 {
                Err("vmhost 防护页密文长度异常"@)
            } else if key.len() != 16 && key.len() != 24 && key.len() != 32 {
                Err("vmhost 防护页 AES key 长度异常："@ + decimal(key.len()))
            } else {
                let plain = if key.len() == 16 {
                    aes128_cbc_decrypt(key, iv, data)
                } else if key.len() == 24 {
                    aes192_cbc_decrypt(key, iv, data)
                } else {
                    aes256_cbc_decrypt(key, iv, data)
                };
                Ok(spec_cookie_from_plaintext(plain))
            },
        },
    }
}

/// Reading an ASCII hexadecimal text two bytes at a time never stops
/// inside a character.
proof fn lemma_hex_text_no_panic(s: Seq<char>)
    requires
        is_hex_text(s),
    ensures
        !hex_slicing_panics(encode_utf8(s)),
{
    assert(is_ascii_chars(s));
    is_ascii_chars_encode_utf8(s);
    is_continuation_byte_free(encode_utf8(s));
}

fn hex_param(s: &String) -> (r: Result<Vec<u8>, String>)
    requires
        is_hex_text(s@),
    ensures
        match hex_result(s@) {
            Ok(b) => r matches Ok(v) && v@ == b,
            Err(e) => r matches Err(m) && m@ == e,
        },
{
    proof {
        lemma_hex_text_no_panic(s@);
    }
    hex_to_bytes(s.as_str())
}

/// Computes the `__test` cookie of a challenge script, as
/// `spec_solve_vmhost_cookie` describes: `__test=` and the lower-case
/// hexadecimal of the decrypted value without its PKCS#7 padding.
pub fn solve_vmhost_cookie(script: &str) -> (r: Result<String, String>)
    ensures
        match spec_solve_vmhost_cookie(script@) {
            Ok(c) => r matches Ok(s) && s@ == c,
            Err(e) => r matches Err(m) && m@ == e,
        },
{
    let (key_hex, iv_hex, cipher_hex) = match extract_vmhost_params(script) {
        Some(p) => p,
        None => return Err("识别到 vmhost 防护页，但未找到 a/b/c 参数".to_string()),
    };
    let key = match hex_param(&key_hex) {
        Ok(b) => b,
        Err(e) => return Err(e),
    };
    let iv = match hex_param(&iv_hex) {
        Ok(b) => b,
        Err(e) => return Err(e),
    };
    let cipher_text = match hex_param(&cipher_hex) {
        Ok(b) => b,
        Err(e) => return Err(e),
    };
    if iv.len() != 16 {
        return Err("vmhost 防护页 IV 长度异常".to_string());
    }
    if cipher_text.len() % 16 != 0 {
        return Err("vmhost 防护页密文长度异常".to_string());
    }
    let plain = if key.len() == 16 {
        decrypt_aes128_cbc(key.as_slice(), iv.as_slice(), cipher_text.as_slice())
    } else if key.len() == 24 {
        decrypt_aes192_cbc(key.as_slice(), iv.as_slice(), cipher_text.as_slice())
    } else if key.len() == 32 {
        decrypt_aes256_cbc(key.as_slice(), iv.as_slice(), cipher_text.as_slice())
    } else {
        let prefix = chars_of("vmhost 防护页 AES key 长度异常：");
        let len_text = decimal_string(key.len() as u64);
        let msg = concat_chars(prefix.as_slice(), chars_of(len_text.as_str()).as_slice());
        return Err(string_of(msg.as_slice()));
    };
    Ok(vmhost_cookie_from_plaintext(plain))
}

} // verus!
