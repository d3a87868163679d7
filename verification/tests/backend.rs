use csac_client::cookie::{
    cookie_header_for, cookie_scope, merge_cookie, remember_response_cookies, CookieJar,
};
use csac_client::endpoint::{
    candidate_endpoints, endpoint_origin, is_auth_probe, normalize_route, push_endpoint,
    remember_active_base, ApiEndpoint, Session,
};
use csac_client::flow::{ApiResponse, RequestFlow};
use csac_client::hex::{bytes_to_hex, hex_to_bytes, strip_pkcs7_padding};
use csac_client::json::{
    get, parse_i64, text_to_bool, value_to_bool, value_to_i64, value_to_param, Json, JsonNumber,
    ParamValue,
};
use csac_client::response::{
    endpoint_attempt, extract_json, has_unauthorized_attempt, html_to_text, is_success_response,
    looks_like_aes_challenge, looks_like_site_script, message_from_value, parse_response_text, response_from_parsed,
    request_pairs, response_json_texts, should_try_next_endpoint,
};
use csac_client::text::is_whitespace;
use csac_client::upload::{
    avatar_upload_from, chat_upload_from, endpoint_referer, plan_avatar_upload, plan_chat_upload,
    request_plan, upload_headers,
};
use csac_client::vmhost::{
    extract_vmhost_params, pick_vmhost_params, solve_vmhost_cookie, vmhost_cookie_from_plaintext,
};

use aes::cipher::{block_padding::Pkcs7, BlockEncryptMut, KeyIvInit};
use base64::Engine;

const ENTRY_A: &str = "https://cschat.ccccocccc.cc/rpc/UniCsAC.php";
const ENTRY_B: &str = "https://csac.ccccocccc.cc/rpc/UniCsAC.php";

fn s(text: &str) -> Json {
    Json::Str(text.to_string())
}

fn n(value: i64) -> Json {
    Json::Number(JsonNumber { int: Some(value), text: value.to_string() })
}

fn obj(members: Vec<(&str, Json)>) -> Json {
    Json::Object(members.into_iter().map(|(k, v)| (k.to_string(), v)).collect())
}

fn quoted(text: &str) -> String {
    let mut out = String::from("\"");
    for ch in text.chars() {
        match ch {
            '"' => out.push_str("\\\""),
            '\\' => out.push_str("\\\\"),
            _ => out.push(ch),
        }
    }
    out.push('"');
    out
}

/// Compact JSON text of a value, members in their order.
fn render(value: &Json) -> String {
    match value {
        Json::Null => "null".to_string(),
        Json::Bool(b) => b.to_string(),
        Json::Number(num) => num.text.clone(),
        Json::Str(t) => quoted(t),
        Json::Array(items) => {
            let parts: Vec<String> = items.iter().map(render).collect();
            format!("[{}]", parts.join(","))
        }
        Json::Object(members) => {
            let parts: Vec<String> =
                members.iter().map(|(k, v)| format!("{}:{}", quoted(k), render(v))).collect();
            format!("{{{}}}", parts.join(","))
        }
    }
}

fn hex(bytes: &[u8]) -> String {
    bytes.iter().map(|b| format!("{b:02x}")).collect()
}

fn encrypt128(key: &[u8], iv: &[u8], plain: &[u8]) -> Vec<u8> {
    cbc::Encryptor::<aes::Aes128>::new_from_slices(key, iv)
        .unwrap()
        .encrypt_padded_vec_mut::<Pkcs7>(plain)
}

fn challenge_script(key: &[u8], iv: &[u8], cipher: &[u8]) -> String {
    format!(
        "<html><script src=\"/aes.js\"></script><script>function toNumbers(d){{}}function toHex(){{}}\
         var a=toNumbers(\"{}\"),b=toNumbers(\"{}\"),c=toNumbers(\"{}\");\
         document.cookie=\"__test=\"+toHex(slowAES.decrypt(c,2,a,b))+\"; path=/\";</script></html>",
        hex(key),
        hex(iv),
        hex(cipher)
    )
}

/// A body text: the JSON text of `parsed` when given, else `text`.
fn body(text: &str, parsed: Option<Json>) -> Result<String, String> {
    match parsed {
        Some(j) => Ok(render(&j)),
        None => Ok(text.to_string()),
    }
}

// ---- hex ----

#[test]
fn hex_decodes_pairs() {
    assert_eq!(hex_to_bytes("0aff10"), Ok(vec![0x0a, 0xff, 0x10]));
    assert_eq!(hex_to_bytes("ABcd"), Ok(vec![0xab, 0xcd]));
    assert_eq!(hex_to_bytes(""), Ok(vec![]));
    assert_eq!(hex_to_bytes("+f"), Ok(vec![0x0f]));
}

#[test]
fn hex_errors() {
    assert_eq!(hex_to_bytes("abc"), Err("hex 长度异常".to_string()));
    assert_eq!(hex_to_bytes("zz"), Err("hex 内容异常".to_string()));
    assert_eq!(hex_to_bytes("0g"), Err("hex 内容异常".to_string()));
    assert_eq!(hex_to_bytes("éa"), Err("hex 长度异常".to_string()));
    assert_eq!(hex_to_bytes("éé"), Err("hex 内容异常".to_string()));
}

#[test]
fn hex_roundtrip_of_all_bytes() {
    let all: Vec<u8> = (0..=255u8).collect();
    let text = bytes_to_hex(&all);
    assert_eq!(text, hex(&all));
    assert_eq!(hex_to_bytes(&text), Ok(all));
    assert_eq!(bytes_to_hex(&[0x00, 0x0f, 0xa0]), "000fa0");
}

#[test]
fn pkcs7_padding_removed() {
    let mut v = vec![1, 2, 3, 3, 3, 3];
    strip_pkcs7_padding(&mut v);
    assert_eq!(v, vec![1, 2, 3]);
    let mut full = vec![16u8; 16];
    strip_pkcs7_padding(&mut full);
    assert_eq!(full, Vec::<u8>::new());
}

#[test]
fn pkcs7_padding_left_when_invalid() {
    let mut zero = vec![5, 0];
    strip_pkcs7_padding(&mut zero);
    assert_eq!(zero, vec![5, 0]);
    let mut big = vec![17u8; 17];
    strip_pkcs7_padding(&mut big);
    assert_eq!(big, vec![17u8; 17]);
    let mut mixed = vec![9, 1, 3, 3];
    strip_pkcs7_padding(&mut mixed);
    assert_eq!(mixed, vec![9, 1, 3, 3]);
    let mut short = vec![4, 4];
    strip_pkcs7_padding(&mut short);
    assert_eq!(short, vec![4, 4]);
    let mut empty: Vec<u8> = Vec::new();
    strip_pkcs7_padding(&mut empty);
    assert!(empty.is_empty());
}

// ---- text and json ----

#[test]
fn whitespace_matches_std() {
    for code in 0..=0x10FFFFu32 {
        if let Some(c) = char::from_u32(code) {
            assert_eq!(is_whitespace(c), c.is_whitespace(), "char {code:#x}");
        }
    }
}

#[test]
fn parse_i64_matches_std() {
    let samples = [
        "0", "42", "-42", "+7", "-0", "007", "", "-", "+", "1 ", " 1", "12a", "9223372036854775807",
        "9223372036854775808", "-9223372036854775808", "-9223372036854775809",
        "99999999999999999999999", "+-1", "--1", "١",
    ];
    for text in samples {
        assert_eq!(parse_i64(text), text.parse::<i64>().ok(), "text {text:?}");
    }
}

#[test]
fn text_flags() {
    assert_eq!(text_to_bool(" YES "), Some(true));
    assert_eq!(text_to_bool("Success"), Some(true));
    assert_eq!(text_to_bool("failed"), Some(false));
    assert_eq!(text_to_bool("ERROR"), Some(false));
    assert_eq!(text_to_bool("maybe"), None);
    assert_eq!(text_to_bool(""), None);
}

#[test]
fn json_value_readers() {
    assert_eq!(value_to_bool(&n(2)), Some(true));
    assert_eq!(value_to_bool(&n(0)), Some(false));
    let float = Json::Number(JsonNumber { int: None, text: "1.5".to_string() });
    assert_eq!(value_to_bool(&float), Some(false));
    assert_eq!(value_to_bool(&s("on")), Some(true));
    assert_eq!(value_to_bool(&Json::Null), None);
    assert_eq!(value_to_i64(&s(" 15 ")), Some(15));
    assert_eq!(value_to_i64(&Json::Bool(true)), Some(1));
    assert_eq!(value_to_i64(&float), None);
    assert_eq!(value_to_i64(&Json::Array(vec![])), None);
    let o = obj(vec![("a", n(1)), ("b", s("x"))]);
    assert_eq!(get(&o, "b").map(render), Some("\"x\"".to_string()));
    assert!(get(&o, "c").is_none());
    assert!(get(&s("a"), "a").is_none());
}

#[test]
fn params_from_values() {
    assert!(value_to_param(&Json::Null).is_none());
    match value_to_param(&Json::Bool(false)) {
        Some(ParamValue::Text(t)) => assert_eq!(t, "0"),
        _ => panic!("expected text"),
    }
    let arr = Json::Array(vec![n(1)]);
    match value_to_param(&arr) {
        Some(ParamValue::Encoded(j)) => assert_eq!(render(j), "[1]"),
        _ => panic!("expected encoded"),
    }
}

// ---- cookies ----

#[test]
fn cookie_scopes() {
    assert_eq!(cookie_scope("https://a.b/rpc/UniCsAC.php"), "https://a.b");
    assert_eq!(cookie_scope("https://a.b///"), "https://a.b");
    assert_eq!(cookie_scope("x/rpc/y/rpc/z"), "x");
    assert_eq!(cookie_scope("https://a.b"), "https://a.b");
}

#[test]
fn merge_then_header_reads_back() {
    let mut jar = CookieJar::new();
    let base = "https://a.b";
    assert_eq!(cookie_header_for(&jar, base), None);
    merge_cookie(&mut jar, base, "sid=1");
    assert_eq!(cookie_header_for(&jar, base), Some("sid=1".to_string()));
    merge_cookie(&mut jar, base, " tok = 2 ");
    assert_eq!(cookie_header_for(&jar, base), Some("sid=1; tok=2".to_string()));
    merge_cookie(&mut jar, base, "sid=3");
    assert_eq!(cookie_header_for(&jar, base), Some("tok=2; sid=3".to_string()));
    assert_eq!(cookie_header_for(&jar, "https://a.b/rpc/x"), Some("tok=2; sid=3".to_string()));
}

#[test]
fn merge_ignores_bad_pairs() {
    let mut jar = CookieJar::new();
    let base = "https://a.b";
    merge_cookie(&mut jar, base, "k=v");
    merge_cookie(&mut jar, base, "Path=/");
    merge_cookie(&mut jar, base, "novalue");
    merge_cookie(&mut jar, base, " =x");
    assert_eq!(cookie_header_for(&jar, base), Some("k=v".to_string()));
    merge_cookie(&mut jar, base, "e=");
    assert_eq!(cookie_header_for(&jar, base), Some("k=v; e=".to_string()));
}

#[test]
fn merge_keeps_other_scopes() {
    let mut jar = CookieJar::new();
    merge_cookie(&mut jar, "https://one.site", "a=1");
    merge_cookie(&mut jar, "https://two.site", "a=2");
    assert_eq!(cookie_header_for(&jar, "https://one.site"), Some("a=1".to_string()));
    assert_eq!(cookie_header_for(&jar, "https://two.site"), Some("a=2".to_string()));
}

#[test]
fn header_falls_back_to_primary_site() {
    let mut jar = CookieJar::new();
    merge_cookie(&mut jar, "https://cschat.ccccocccc.cc/", "__test=ab");
    assert_eq!(cookie_header_for(&jar, "https://other.example"), Some("__test=ab".to_string()));
    merge_cookie(&mut jar, "https://other.example", "x=1");
    assert_eq!(cookie_header_for(&jar, "https://other.example"), Some("x=1".to_string()));
}

#[test]
fn response_cookies_remembered() {
    let mut jar = CookieJar::new();
    let values = vec![Some("a=1; Path=/; HttpOnly".to_string()), None, Some(" b=2 ".to_string())];
    remember_response_cookies(&mut jar, "https://a.b", &values);
    assert_eq!(cookie_header_for(&jar, "https://a.b"), Some("a=1; b=2".to_string()));
    assert_eq!(jar.get(&"https://a.b".to_string()), Some("a=1; b=2".to_string()));
}

// ---- endpoints ----

#[test]
fn origins_of_urls() {
    assert_eq!(endpoint_origin("https://x.y/rpc/a"), "https://x.y");
    assert_eq!(endpoint_origin("http://h:8080/p/q"), "http://h:8080");
    assert_eq!(endpoint_origin("https://only.host"), "https://only.host");
    assert_eq!(endpoint_origin("ftp://x"), "https://cschat.ccccocccc.cc");
    assert_eq!(endpoint_origin("https://"), "https://");
}

#[test]
fn routes_of_paths() {
    assert_eq!(normalize_route(" /user/get_info/ "), Some("user/get_info".to_string()));
    assert_eq!(normalize_route("//a//"), Some("a".to_string()));
    assert_eq!(normalize_route("/"), None);
    assert_eq!(normalize_route("  "), None);
    assert!(is_auth_probe("/user/get_info"));
    assert!(is_auth_probe("user/get_info/"));
    assert!(!is_auth_probe("/user/get_infos"));
}

#[test]
fn endpoint_fields() {
    let e = ApiEndpoint::new(ENTRY_B, "/friend/list");
    assert_eq!(e.url, ENTRY_B);
    assert_eq!(e.base, "https://csac.ccccocccc.cc");
    assert_eq!(e.route, Some("friend/list".to_string()));
}

#[test]
fn push_skips_duplicates() {
    let mut list = Vec::new();
    push_endpoint(&mut list, ApiEndpoint::new(ENTRY_A, "/a"));
    push_endpoint(&mut list, ApiEndpoint::new(ENTRY_B, "/a"));
    push_endpoint(&mut list, ApiEndpoint::new(ENTRY_A, "/b"));
    assert_eq!(list.len(), 2);
    assert_eq!(list[0].route, Some("a".to_string()));
}

#[test]
fn candidates_without_active_site() {
    let session = Session::new();
    let list = candidate_endpoints(&session, "/user/login");
    let urls: Vec<&str> = list.iter().map(|e| e.url.as_str()).collect();
    assert_eq!(urls, vec![ENTRY_A, ENTRY_B]);
    assert_eq!(list[1].base, "https://csac.ccccocccc.cc");
}

#[test]
fn candidates_start_with_active_site() {
    let mut session = Session::new();
    remember_active_base(&mut session, "https://csac.ccccocccc.cc/");
    assert_eq!(session.active_base, Some("https://csac.ccccocccc.cc/".to_string()));
    let urls: Vec<String> =
        candidate_endpoints(&session, "/x").into_iter().map(|e| e.url).collect();
    assert_eq!(urls, vec![ENTRY_B.to_string(), ENTRY_A.to_string()]);
    remember_active_base(&mut session, "https://mirror.example");
    let urls: Vec<String> =
        candidate_endpoints(&session, "/x").into_iter().map(|e| e.url).collect();
    assert_eq!(
        urls,
        vec![
            "https://mirror.example/rpc/UniCsAC.php".to_string(),
            ENTRY_A.to_string(),
            ENTRY_B.to_string()
        ]
    );
}

// ---- responses ----

#[test]
fn page_detectors() {
    assert!(looks_like_aes_challenge("x toNumbers y toHex"));
    assert!(!looks_like_aes_challenge("toNumbers only"));
    assert!(looks_like_aes_challenge("slowAES"));
    assert!(looks_like_aes_challenge("__test"));
    assert!(looks_like_aes_challenge("document.cookie=1"));
    assert!(!looks_like_aes_challenge("{\"success\":true}"));
    assert!(looks_like_site_script("js_css; document.createElement('a')"));
    assert!(looks_like_site_script("#site_header .submenus"));
    assert!(!looks_like_site_script("js_css"));
}

#[test]
fn json_part_found() {
    assert_eq!(extract_json("xx {\"a\":1} yy"), Some("{\"a\":1}".to_string()));
    assert_eq!(extract_json("[1] and {2}"), Some("[1] and {2}".to_string()));
    assert_eq!(extract_json("}{"), None);
    assert_eq!(extract_json("abc"), None);
    assert_eq!(extract_json("{"), None);
}

#[test]
fn html_reduced_to_text() {
    assert_eq!(html_to_text("<p>Hello  <b>World</b></p>"), "Hello World");
    assert_eq!(html_to_text("<>"), "");
    let long: String = "ab ".repeat(100);
    assert_eq!(html_to_text(&format!("<i>{long}</i>")).chars().count(), 180);
}

#[test]
fn messages_and_success() {
    assert_eq!(message_from_value(&obj(vec![("message", s("x"))])), "x");
    assert_eq!(message_from_value(&obj(vec![("message", n(1))])), "请求失败");
    assert!(is_success_response(&obj(vec![("success", s("yes"))])));
    assert!(!is_success_response(&obj(vec![("ok", n(0))])));
    assert!(is_success_response(&obj(vec![("code", s(" 200 "))])));
    assert!(is_success_response(&obj(vec![("success", s("maybe")), ("code", n(0))])));
    assert!(!is_success_response(&obj(vec![("code", n(500))])));
    assert!(!is_success_response(&obj(vec![])));
}

#[test]
fn attempts_and_retry_rules() {
    let data = obj(vec![("message", s("boom"))]);
    let a = endpoint_attempt(ENTRY_A, 401, &data);
    assert_eq!(render(&a), format!("{{\"endpoint\":\"{ENTRY_A}\",\"status\":401,\"message\":\"boom\"}}"));
    assert!(has_unauthorized_attempt(&[endpoint_attempt(ENTRY_B, 200, &data), a]));
    assert!(!has_unauthorized_attempt(&[endpoint_attempt(ENTRY_B, 200, &data)]));
    let pe = obj(vec![("parse_error", Json::Bool(true))]);
    assert!(should_try_next_endpoint("/a", 401, &obj(vec![])));
    assert!(should_try_next_endpoint("/a", 200, &pe));
    assert!(should_try_next_endpoint("/a", 503, &pe));
    assert!(!should_try_next_endpoint("/a", 302, &pe));
    assert!(!should_try_next_endpoint("/a", 500, &obj(vec![])));
    assert!(!should_try_next_endpoint("/a", 500, &obj(vec![("parse_error", s("true"))])));
}

#[test]
fn response_texts_split() {
    let (t, e) = response_json_texts("  ok {\"a\":1}  ");
    assert_eq!(t, "ok {\"a\":1}");
    assert_eq!(e, Some("{\"a\":1}".to_string()));
    let (t, e) = response_json_texts("plain");
    assert_eq!(t, "plain");
    assert_eq!(e, None);
}

#[test]
fn response_text_meanings() {
    let u = "https://h/rpc";
    let empty = parse_response_text("  \n", 200, u, "/p");
    assert_eq!(
        render(&empty),
        "{\"success\":false,\"message\":\"服务器返回了空响应\",\"status\":200,\"endpoint\":\"https://h/rpc\",\"parse_error\":true}"
    );
    let ok = parse_response_text(" SUCCESS ", 200, u, "/p");
    assert_eq!(render(&ok), "{\"success\":true,\"message\":\"操作成功\"}");
    let ch = parse_response_text("<script>slowAES</script>", 200, u, "/p");
    assert_eq!(
        render(&ch),
        "{\"success\":false,\"message\":\"服务器防护页仍在拦截 API 请求，已尝试计算 vmhost __test Cookie 但未通过。\",\"status\":200,\"endpoint\":\"https://h/rpc\",\"parse_error\":true,\"challenge\":true}"
    );
    let site = parse_response_text("#site_header .submenus {}", 404, u, "/p");
    assert_eq!(render(get(&site, "message").unwrap()), "\"服务器返回了站点页面脚本，不是 API 响应\"");
    let parsed = parse_response_text(" {\"b\":[1,2.5],\"a\":1} ", 200, u, "/p");
    assert_eq!(render(&parsed), "{\"a\":1,\"b\":[1,2.5]}");
    let parsed = response_from_parsed("{\"a\":1}", 200, u, Some(obj(vec![("a", n(1))])), None);
    assert_eq!(render(&parsed), "{\"a\":1}");
    let extracted =
        parse_response_text("note {\"b\":2} end", 200, u, "/p");
    assert_eq!(render(&extracted), "{\"b\":2}");
    let html = parse_response_text("<h1>Bad  Gateway</h1>", 502, u, "/p");
    assert_eq!(render(get(&html, "message").unwrap()), "\"Bad Gateway\"");
    assert_eq!(render(get(&html, "status").unwrap()), "502");
    let bare = parse_response_text("<>", 500, u, "/p");
    assert_eq!(render(get(&bare, "message").unwrap()), "\"服务器返回了非 JSON 响应\"");
    let long = "x".repeat(300);
    let cut = parse_response_text(&long, 200, u, "/p");
    assert_eq!(render(get(&cut, "message").unwrap()), format!("\"{}\"", "x".repeat(180)));
}

#[test]
fn request_pairs_in_order() {
    let params = obj(vec![
        ("a", s("x")),
        ("b", n(1)),
        ("c", Json::Bool(true)),
        ("d", Json::Null),
        ("e", Json::Array(vec![n(1)])),
    ]);
    let pairs = request_pairs(&params, Some("user/login"));
    let shown: Vec<(String, String)> = pairs
        .iter()
        .map(|(k, v)| {
            let text = match v {
                ParamValue::Text(t) => t.clone(),
                ParamValue::Encoded(j) => render(j),
            };
            (k.clone(), text)
        })
        .collect();
    assert_eq!(
        shown,
        vec![
            ("a".to_string(), "x".to_string()),
            ("b".to_string(), "1".to_string()),
            ("c".to_string(), "1".to_string()),
            ("e".to_string(), "[1]".to_string()),
            ("route".to_string(), "user/login".to_string()),
        ]
    );
    assert!(request_pairs(&s("not an object"), None).is_empty());
}

// ---- challenge ----

#[test]
fn challenge_params_found_by_pattern() {
    let key = [1u8; 16];
    let iv = [2u8; 16];
    let script = challenge_script(&key, &iv, &[3u8; 16]);
    let (a, b, c) = extract_vmhost_params(&script).unwrap();
    assert_eq!(a, hex(&key));
    assert_eq!(b, hex(&iv));
    assert_eq!(c, hex(&[3u8; 16]));
}

#[test]
fn challenge_params_by_long_values() {
    let long1 = "0".repeat(32);
    let long2 = "1".repeat(32);
    let long3 = "2".repeat(34);
    let script = format!(
        "x=toNumbers(\"{long1}\");y=toNumbers(\"ab\");z=toNumbers(\"{long2}\");w=toNumbers(\"{long3}\")"
    );
    assert_eq!(extract_vmhost_params(&script), Some((long1.clone(), long2.clone(), long3.clone())));
    assert_eq!(extract_vmhost_params("x=toNumbers(\"ab\")"), None);
    let picked = pick_vmhost_params(None, vec!["a".repeat(31), long1.clone(), long2.clone(), long3.clone()]);
    assert_eq!(picked, Some((long1.clone(), long2.clone(), long3.clone())));
    let found = Some(("k".to_string(), "i".to_string(), "c".to_string()));
    assert_eq!(pick_vmhost_params(found.clone(), vec![long1]), found);
    assert_eq!(pick_vmhost_params(None, vec![long2, long3]), None);
}

#[test]
fn challenge_cookie_solved() {
    let key: Vec<u8> = (0..16).collect();
    let iv: Vec<u8> = (16..32).collect();
    let plain = vec![0xde, 0xad, 0xbe, 0xef, 0x01];
    let cipher = encrypt128(&key, &iv, &plain);
    let script = challenge_script(&key, &iv, &cipher);
    assert!(looks_like_aes_challenge(&script));
    assert_eq!(solve_vmhost_cookie(&script), Ok("__test=deadbeef01".to_string()));
}

#[test]
fn challenge_cookie_with_longer_keys() {
    let iv = [7u8; 16];
    let plain = b"0123456789abcdef0123".to_vec();
    let key24 = [5u8; 24];
    let c24 = cbc::Encryptor::<aes::Aes192>::new_from_slices(&key24, &iv)
        .unwrap()
        .encrypt_padded_vec_mut::<Pkcs7>(&plain);
    assert_eq!(
        solve_vmhost_cookie(&challenge_script(&key24, &iv, &c24)),
        Ok(format!("__test={}", hex(&plain)))
    );
    let key32 = [6u8; 32];
    let c32 = cbc::Encryptor::<aes::Aes256>::new_from_slices(&key32, &iv)
        .unwrap()
        .encrypt_padded_vec_mut::<Pkcs7>(&plain);
    assert_eq!(
        solve_vmhost_cookie(&challenge_script(&key32, &iv, &c32)),
        Ok(format!("__test={}", hex(&plain)))
    );
}

#[test]
fn challenge_errors() {
    assert_eq!(
        solve_vmhost_cookie("document.cookie=1"),
        Err("识别到 vmhost 防护页，但未找到 a/b/c 参数".to_string())
    );
    assert_eq!(
        solve_vmhost_cookie(&challenge_script(&[1u8; 16], &[2u8; 15], &[3u8; 16])),
        Err("vmhost 防护页 IV 长度异常".to_string())
    );
    assert_eq!(
        solve_vmhost_cookie(&challenge_script(&[1u8; 16], &[2u8; 16], &[3u8; 15])),
        Err("vmhost 防护页密文长度异常".to_string())
    );
    assert_eq!(
        solve_vmhost_cookie(&challenge_script(&[1u8; 20], &[2u8; 16], &[3u8; 16])),
        Err("vmhost 防护页 AES key 长度异常：20".to_string())
    );
    let odd = "a=toNumbers(\"abc\"),b=toNumbers(\"00\"),c=toNumbers(\"00\")";
    assert_eq!(solve_vmhost_cookie(odd), Err("hex 长度异常".to_string()));
}

#[test]
fn cookie_from_plaintext() {
    let mut plain = vec![0x0a, 0xbc];
    plain.extend(vec![14u8; 14]);
    assert_eq!(vmhost_cookie_from_plaintext(plain), "__test=0abc");
    assert_eq!(vmhost_cookie_from_plaintext(vec![1, 2, 3]), "__test=010203");
}

// ---- uploads ----

#[test]
fn avatar_checks() {
    let ok = plan_avatar_upload("  aGVsbG8= ", " image/png ").unwrap();
    assert_eq!(ok.bytes, b"hello".to_vec());
    assert_eq!(ok.mime, "image/png");
    let ok = plan_avatar_upload("aGVsbG8=", "  ").unwrap();
    assert_eq!(ok.mime, "application/octet-stream");
    assert_eq!(plan_avatar_upload("!!!", "").err(), Some("头像数据解析失败".to_string()));
    assert_eq!(plan_avatar_upload("", "").err(), Some("头像文件为空".to_string()));
    let big = base64::engine::general_purpose::STANDARD.encode(vec![0u8; 5 * 1024 * 1024 + 1]);
    assert_eq!(plan_avatar_upload(&big, "").err(), Some("头像不能超过 5MB".to_string()));
    let edge = base64::engine::general_purpose::STANDARD.encode(vec![0u8; 5 * 1024 * 1024]);
    assert!(plan_avatar_upload(&edge, "").is_ok());
}

#[test]
fn avatar_checks_on_decoded_bytes() {
    assert_eq!(avatar_upload_from(None, "").err(), Some("头像数据解析失败".to_string()));
    assert_eq!(avatar_upload_from(Some(vec![]), "").err(), Some("头像文件为空".to_string()));
    let ok = avatar_upload_from(Some(vec![1]), "image/gif").unwrap();
    assert_eq!(ok.bytes, vec![1]);
    assert_eq!(ok.mime, "image/gif");
}

#[test]
fn chat_image_fields() {
    let u = plan_chat_upload("group", 7, "image", "", "aGk=", None).unwrap();
    assert_eq!(u.path, "/message/send_group_msg");
    assert_eq!(u.field, "img");
    assert_eq!(u.fallback, "图片发送失败");
    assert_eq!(u.id_field, "room_id");
    assert_eq!(u.id_value, "7");
    assert_eq!(u.extra_field, "content");
    assert_eq!(u.extra_value, "");
    assert_eq!(u.bytes, b"hi".to_vec());
    assert_eq!(u.mime, "application/octet-stream");
    let p = plan_chat_upload("private", 12, "image", "image/jpeg", "aGk=", Some(3)).unwrap();
    assert_eq!(p.path, "/message/send_private_msg");
    assert_eq!(p.id_field, "friend_id");
    assert_eq!(p.mime, "image/jpeg");
}

#[test]
fn chat_voice_fields() {
    let v = plan_chat_upload("private", 9, "voice", "", "aGk=", Some(-5)).unwrap();
    assert_eq!(v.path, "/message/send_voice_msg");
    assert_eq!(v.field, "voice");
    assert_eq!(v.fallback, "语音发送失败");
    assert_eq!(v.id_field, "friend_id");
    assert_eq!(v.extra_field, "duration");
    assert_eq!(v.extra_value, "0");
    assert_eq!(v.mime, "audio/webm");
    let w = plan_chat_upload("group", 9, "voice", "audio/ogg", "aGk=", Some(12)).unwrap();
    assert_eq!(w.extra_value, "12");
    assert_eq!(w.id_field, "room_id");
    let none = plan_chat_upload("group", 9, "voice", "", "aGk=", None).unwrap();
    assert_eq!(none.extra_value, "0");
}

#[test]
fn chat_upload_errors() {
    let err = |r: Result<csac_client::upload::ChatUpload, String>| r.err().unwrap();
    assert_eq!(err(plan_chat_upload("group", 1, "image", "", "@@", None)), "文件数据解析失败");
    assert_eq!(err(plan_chat_upload("group", 1, "image", "", " ", None)), "文件为空");
    assert_eq!(err(plan_chat_upload("group", 1, "video", "", "aGk=", None)), "未知文件类型");
    assert_eq!(err(plan_chat_upload("group", 0, "image", "", "aGk=", None)), "无效的聊天对象");
    assert_eq!(err(plan_chat_upload("private", -3, "voice", "", "aGk=", None)), "无效的聊天对象");
    let big5 = Some(vec![0u8; 5 * 1024 * 1024 + 1]);
    assert_eq!(err(chat_upload_from(big5.clone(), "group", 1, "image", "", None)), "图片不能超过 5MB");
    assert!(chat_upload_from(big5.clone(), "group", 1, "voice", "", None).is_ok());
    assert_eq!(err(chat_upload_from(big5, "group", 0, "video", "", None)), "未知文件类型");
    let big10 = Some(vec![0u8; 10 * 1024 * 1024 + 1]);
    assert_eq!(err(chat_upload_from(big10, "group", 0, "voice", "", None)), "语音不能超过 10MB");
    assert_eq!(err(chat_upload_from(None, "group", 1, "image", "", None)), "文件数据解析失败");
}

#[test]
fn request_plans() {
    let mut session = Session::new();
    merge_cookie(&mut session.cookies, "https://cschat.ccccocccc.cc", "__test=ab");
    let e = ApiEndpoint::new(ENTRY_A, "/user/login");
    let params = Some(obj(vec![("u", s("x")), ("skip", Json::Null)]));
    let post = request_plan(&session, &e, &params, false);
    assert_eq!(post.url, ENTRY_A);
    assert_eq!(post.referer, "https://cschat.ccccocccc.cc/");
    assert_eq!(post.origin, Some("https://cschat.ccccocccc.cc".to_string()));
    assert_eq!(post.cookie, Some("__test=ab".to_string()));
    assert!(!post.as_query);
    let keys: Vec<&str> = post.pairs.iter().map(|(k, _)| k.as_str()).collect();
    assert_eq!(keys, vec!["u", "route"]);
    let get_plan = request_plan(&session, &e, &None, true);
    assert!(get_plan.as_query);
    assert_eq!(get_plan.origin, None);
    assert_eq!(get_plan.pairs.len(), 1);
    match &get_plan.pairs[0].1 {
        ParamValue::Text(t) => assert_eq!(t, "user/login"),
        _ => panic!("route is text"),
    }
    let h = upload_headers(&session, &ApiEndpoint::new(ENTRY_B, "/user/update_profile"));
    assert_eq!(h.origin, "https://csac.ccccocccc.cc");
    assert_eq!(h.referer, "https://csac.ccccocccc.cc/");
    assert_eq!(h.cookie, Some("__test=ab".to_string()));
    assert_eq!(endpoint_referer(ENTRY_A, &obj(vec![])), None);
}

// ---- the call as a whole ----

#[test]
fn api_call_refusals() {
    let session = Session::new();
    let err = |r: Result<RequestFlow, String>| r.err().unwrap();
    assert_eq!(err(RequestFlow::api(&session, "POST", "user/x")), "invalid api path");
    assert_eq!(err(RequestFlow::api(&session, "POST", "/a/../b")), "invalid api path");
    assert_eq!(err(RequestFlow::api(&session, "POST", "/x?u=http://y")), "invalid api path");
    assert_eq!(err(RequestFlow::api(&session, "GE T", "/a/b/c")), "invalid method");
    assert_eq!(err(RequestFlow::api(&session, "", "/a")), "invalid method");
    assert_eq!(err(RequestFlow::api(&session, "", "../a")), "invalid api path");
    let f = RequestFlow::api(&session, "GET", "/user/get_info").unwrap();
    assert!(f.is_get());
    assert!(f.method().is_some());
    let g = RequestFlow::api(&session, "PATCH", "/x").unwrap();
    assert!(!g.is_get());
    assert!(RequestFlow::api(&session, "wOw!!", "/x").is_ok());
}

fn finish_all(flow: RequestFlow) -> ApiResponse {
    assert!(flow.pending().is_none());
    flow.finish()
}

#[test]
fn login_probe_unauthorized_everywhere() {
    let mut session = Session::new();
    let mut flow = RequestFlow::api(&session, "POST", "/user/get_info").unwrap();
    assert_eq!(flow.pending(), Some(0));
    assert_eq!(flow.endpoint(0).url, ENTRY_A);
    let data = obj(vec![("success", Json::Bool(false))]);
    let r = flow.on_response(&mut session, 401, &vec![], body("{}", Some(data)));
    assert!(r.is_none());
    assert_eq!(flow.pending(), Some(1));
    assert_eq!(flow.endpoint(1).url, ENTRY_B);
    let r = flow.on_response(&mut session, 401, &vec![], body("", None));
    assert!(r.is_none());
    let answer = finish_all(flow);
    assert_eq!(answer.status, 401);
    assert_eq!(render(&answer.data), "{\"success\":false,\"message\":\"请先登录\"}");
    assert_eq!(answer.endpoint, "");
    assert_eq!(session.active_base, None);
}

#[test]
fn other_path_unauthorized_everywhere() {
    let mut session = Session::new();
    let mut flow = RequestFlow::api(&session, "POST", "/friend/list").unwrap();
    flow.on_response(&mut session, 401, &vec![], body("{}", Some(obj(vec![("message", s("no"))]))));
    flow.on_send_failed("connection refused".to_string());
    let answer = finish_all(flow);
    assert_eq!(answer.status, 0);
    assert_eq!(
        render(&answer.data),
        format!(
            "{{\"success\":false,\"message\":\"connection refused\",\"attempts\":[{{\"endpoint\":\"{ENTRY_A}\",\"status\":401,\"message\":\"no\"}}]}}"
        )
    );
}

#[test]
fn first_success_remembered() {
    let mut session = Session::new();
    let mut flow = RequestFlow::api(&session, "POST", "/user/login").unwrap();
    let set = vec![Some("sid=9; Path=/".to_string())];
    let data = obj(vec![("code", n(0)), ("message", s("ok"))]);
    let r = flow.on_response(&mut session, 200, &set, body("{}", Some(data)));
    let answer = r.unwrap().unwrap();
    assert_eq!(answer.status, 200);
    assert_eq!(answer.endpoint, ENTRY_A);
    assert_eq!(render(&answer.data), "{\"code\":0,\"message\":\"ok\"}");
    assert_eq!(session.active_base, Some("https://cschat.ccccocccc.cc".to_string()));
    assert_eq!(cookie_header_for(&session.cookies, "https://cschat.ccccocccc.cc"), Some("sid=9".to_string()));
    let next = candidate_endpoints(&session, "/user/get_info");
    assert_eq!(next[0].url, ENTRY_A);
}

#[test]
fn failure_answer_not_remembered() {
    let mut session = Session::new();
    let mut flow = RequestFlow::api(&session, "POST", "/user/login").unwrap();
    flow.on_send_failed("timeout".to_string());
    let data = obj(vec![("success", Json::Bool(false)), ("message", s("密码错误"))]);
    let answer = flow.on_response(&mut session, 200, &vec![], body("{}", Some(data))).unwrap().unwrap();
    assert_eq!(answer.endpoint, ENTRY_B);
    assert_eq!(render(&answer.data), "{\"message\":\"密码错误\",\"success\":false}");
    assert_eq!(session.active_base, None);
}

#[test]
fn unreadable_body_ends_call() {
    let mut session = Session::new();
    let mut flow = RequestFlow::api(&session, "GET", "/x").unwrap();
    let r = flow.on_response(&mut session, 200, &vec![Some("k=v".to_string())], Err("read failed".to_string()));
    match r {
        Some(Err(m)) => assert_eq!(m, "read failed"),
        _ => panic!("expected the read error"),
    }
    assert_eq!(cookie_header_for(&session.cookies, "https://cschat.ccccocccc.cc"), Some("k=v".to_string()));
}

#[test]
fn challenge_answered_then_retried() {
    let mut session = Session::new();
    let key: Vec<u8> = (100..116).collect();
    let iv: Vec<u8> = (200..216).collect();
    let plain = vec![0x11, 0x22, 0x33];
    let script = challenge_script(&key, &iv, &encrypt128(&key, &iv, &plain));
    let mut flow = RequestFlow::api(&session, "POST", "/user/get_info").unwrap();
    let r = flow.on_response(&mut session, 200, &vec![Some("sid=1".to_string())], body(&script, None));
    assert!(r.is_none());
    assert_eq!(flow.pending(), Some(0));
    assert_eq!(
        cookie_header_for(&session.cookies, "https://cschat.ccccocccc.cc"),
        Some("sid=1; __test=112233".to_string())
    );
    let data = obj(vec![("success", Json::Bool(true))]);
    let answer = flow.on_response(&mut session, 200, &vec![], body("{}", Some(data))).unwrap().unwrap();
    assert_eq!(answer.endpoint, ENTRY_A);
    assert_eq!(session.active_base, Some("https://cschat.ccccocccc.cc".to_string()));
}

#[test]
fn challenge_still_there_moves_on() {
    let mut session = Session::new();
    let key = [9u8; 16];
    let iv = [8u8; 16];
    let script = challenge_script(&key, &iv, &encrypt128(&key, &iv, b"x"));
    let mut flow = RequestFlow::api(&session, "POST", "/a").unwrap();
    assert!(flow.on_response(&mut session, 200, &vec![], body(&script, None)).is_none());
    assert_eq!(flow.pending(), Some(0));
    assert!(flow.on_response(&mut session, 302, &vec![], body(&script, None)).is_none());
    assert_eq!(flow.pending(), Some(1));
    let unsolvable = "<script>document.cookie='x'</script>";
    assert!(flow.on_response(&mut session, 200, &vec![], body(unsolvable, None)).is_none());
    let answer = finish_all(flow);
    assert_eq!(answer.status, 0);
    let shown = render(&answer.data);
    assert!(shown.starts_with("{\"success\":false,\"message\":\"识别到 vmhost 防护页，但未找到 a/b/c 参数\",\"attempts\":[{"));
    assert!(shown.contains("\"status\":302,\"message\":\"服务器防护页仍在拦截 API 请求，已尝试计算 vmhost __test Cookie 但未通过。\""));
}

#[test]
fn uploads_do_not_solve_challenges() {
    let mut session = Session::new();
    let mut flow = RequestFlow::upload(&session, "/user/update_profile", "头像上传失败");
    assert!(flow.method().is_none());
    let key = [9u8; 16];
    let iv = [8u8; 16];
    let script = challenge_script(&key, &iv, &encrypt128(&key, &iv, b"x"));
    assert!(flow.on_response(&mut session, 200, &vec![], body(&script, None)).is_none());
    assert_eq!(flow.pending(), Some(1));
    assert_eq!(cookie_header_for(&session.cookies, "https://cschat.ccccocccc.cc"), None);
    assert!(flow.on_response(&mut session, 401, &vec![], body("", None)).is_none());
    let answer = finish_all(flow);
    assert_eq!(answer.status, 0);
    assert!(render(&answer.data).contains("\"message\":\"服务器返回了空响应\",\"attempts\""));
}

#[test]
fn answers_keep_other_scopes() {
    let mut session = Session::new();
    merge_cookie(&mut session.cookies, "https://mirror.example", "m=1");
    remember_active_base(&mut session, "https://mirror.example");
    let mut flow = RequestFlow::api(&session, "POST", "/a").unwrap();
    assert_eq!(flow.endpoint(0).url, "https://mirror.example/rpc/UniCsAC.php");
    let set = vec![Some("m=2".to_string())];
    let data = obj(vec![("success", Json::Bool(false))]);
    flow.on_send_failed("down".to_string());
    let answer = flow.on_response(&mut session, 200, &set, body("{}", Some(data))).unwrap().unwrap();
    assert_eq!(answer.endpoint, ENTRY_A);
    assert_eq!(cookie_header_for(&session.cookies, "https://mirror.example"), Some("m=1".to_string()));
    assert_eq!(cookie_header_for(&session.cookies, "https://cschat.ccccocccc.cc"), Some("m=2".to_string()));
    assert_eq!(session.active_base, Some("https://mirror.example".to_string()));
}

#[test]
fn api_call_keeps_its_method() {
    let session = Session::new();
    let post = RequestFlow::api(&session, "POST", "/x").unwrap();
    assert_eq!(post.method().clone(), Some(reqwest::Method::POST));
    let ext = RequestFlow::api(&session, "PURGE", "/x").unwrap();
    assert_eq!(ext.method().as_ref().map(|m| m.as_str().to_string()), Some("PURGE".to_string()));
    let up = RequestFlow::upload(&session, "/x", "f");
    assert!(up.method().is_none());
}

#[test]
fn lower_hex_reencodes() {
    for text in ["", "00", "0aff10", "deadbeef", "0123456789abcdef"] {
        let bytes = hex_to_bytes(text).unwrap();
        assert_eq!(bytes_to_hex(&bytes), text);
    }
}

#[test]
fn merged_name_appears_once() {
    let mut jar = CookieJar::new();
    let base = "https://a.b/rpc/UniCsAC.php";
    merge_cookie(&mut jar, base, "a=1");
    merge_cookie(&mut jar, base, "b=2");
    merge_cookie(&mut jar, base, " a = 3 ");
    let header = cookie_header_for(&jar, base).unwrap();
    let named: Vec<&str> = header.split("; ").filter(|item| item.split('=').next() == Some("a")).collect();
    assert_eq!(named, vec!["a=3"]);
    assert_eq!(header, "b=2; a=3");
}

#[test]
fn response_texts_read_as_json() {
    let u = "https://h/rpc";
    let broken = parse_response_text("{bad json}", 500, u, "/p");
    assert_eq!(render(get(&broken, "message").unwrap()), "\"{bad json}\"");
    assert_eq!(render(get(&broken, "parse_error").unwrap()), "true");
    let num = parse_response_text("{\"code\":1.5,\"big\":18446744073709551615}", 200, u, "/p");
    match get(&num, "code") {
        Some(Json::Number(x)) => assert_eq!((x.int, x.text.as_str()), (None, "1.5")),
        _ => panic!("expected a number"),
    }
    match get(&num, "big") {
        Some(Json::Number(x)) => assert_eq!(x.int, None),
        _ => panic!("expected a number"),
    }
    let extracted = response_from_parsed("x {\"b\":2}", 200, u, None, Some(obj(vec![("b", n(2))])));
    assert_eq!(render(&extracted), "{\"b\":2}");
    let not_json = response_from_parsed("x {\"b\":2}", 200, u, None, None);
    assert_eq!(render(get(&not_json, "message").unwrap()), "\"x {\\\"b\\\":2}\"");
}

#[test]
fn to_numbers_matches_follow_the_pattern() {
    let a = "a".repeat(32);
    let one = "1".repeat(32);
    let two = "B".repeat(40);
    let three = "c".repeat(33);
    let script = format!(
        "x=toNumbers(\"{a}z\");y=toNumbers(\"\");p=toNumbers(\"toNumbers(\"{one}\");q=toNumbers(\"{two}\") r=toNumbers(\"{three}\")"
    );
    assert_eq!(extract_vmhost_params(&script), Some((one, two, three)));
}
