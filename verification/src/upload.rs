//! What is sent: the query or form of an API request, the headers of an
//! upload, and the checks and fields of avatar and chat file uploads.
use vstd::prelude::*;
use base64::Engine;
use crate::cookie::{cookie_header_for, spec_cookie_header};
use crate::endpoint::{endpoint_origin, spec_endpoint_origin, ApiEndpoint, Session};
use crate::json::{decimal, decimal_string, param_matches, Json, JsonV, ParamValue};
use crate::response::{request_pairs, spec_params_of};
use crate::text::{chars_eq, chars_of, concat_chars, string_of, trim, trim_chars, Trim};

verus! {

broadcast use vstd::string::group_string_axioms;

/// The referer for a request: none is derived from the URL or the
/// parameters, so the origin is used.
pub fn endpoint_referer(url: &str, params: &Json) -> (r: Option<String>)
    ensures
        r is None,
{
    None
}

/// How one API request is sent: the URL, the `Referer`, the `Origin` (sent
/// with everything but `GET`), the `Cookie`, and the parameters, as a query
/// for `GET` and as a form otherwise.
pub struct RequestPlan<'a> {
    pub url: String,
    pub referer: String,
    pub origin: Option<String>,
    pub cookie: Option<String>,
    pub pairs: Vec<(String, ParamValue<'a>)>,
    pub as_query: bool,
}

/// The parameters of a request: the members of `params` when it is given.
pub open spec fn params_view(params: Option<Json>) -> JsonV {
    match params {
        Some(p) => p@,
        None => JsonV::Object(Seq::empty()),
    }
}

/// The plan for sending a request with `params` to `endpoint`.
pub fn request_plan<'a>(
    session: &Session,
    endpoint: &ApiEndpoint,
    params: &'a Option<Json>,
    is_get: bool,
) -> (r: RequestPlan<'a>)
    ensures
        r.url@ == endpoint.url@,
        r.referer@ == spec_endpoint_origin(endpoint.url@) + "/"@,
        r.as_query == is_get,
        is_get ==> r.origin is None,
        !is_get ==> (r.origin matches Some(o) && o@ == spec_endpoint_origin(endpoint.url@)),
        match spec_cookie_header(session.cookies@, endpoint.base@) {
            Some(h) => r.cookie matches Some(c) && c@ == h,
            None => r.cookie is None,
        },
        ({
            let kept = spec_params_of(params_view(*params));
            &&& r.pairs@.len() == kept.len() + (if endpoint.route is Some {
                1int
            } else {
                0int
            })
            &&& forall|i: int|
                0 <= i < kept.len() ==> (#[trigger] r.pairs@[i]).0@ == kept[i].0 && param_matches(
                    kept[i].1,
                    Some(r.pairs@[i].1),
                )
            &&& endpoint.route matches Some(x) ==> (r.pairs@[kept.len() as int].0@ == "route"@ && (
            r.pairs@[kept.len() as int].1 matches ParamValue::Text(t) && t@ == x@))
        }),
{
    let origin = endpoint_origin(endpoint.url.as_str());
    let referer = string_of(
        concat_chars(chars_of(origin.as_str()).as_slice(), chars_of("/").as_slice()).as_slice(),
    );
    let cookie = cookie_header_for(&session.cookies, endpoint.base.as_str());
    let route = match &endpoint.route {
        Some(r) => Some(r.as_str()),
        None => None,
    };
    let pairs = match params {
        Some(p) => request_pairs(p, route),
        None => {
            let mut pairs: Vec<(String, ParamValue<'a>)> = Vec::new();
            if let Some(rt) = route {
                pairs.push(("route".to_string(), ParamValue::Text(rt.to_string())));
            }
            assert(spec_params_of(JsonV::Object(Seq::empty())) =~= Seq::<(Seq<char>, JsonV)>::empty());
            pairs
        },
    };
    RequestPlan {
        url: endpoint.url.clone(),
        referer,
        origin: if is_get {
            None
        } else {
            Some(origin)
        },
        cookie,
        pairs,
        as_query: is_get,
    }
}

/// The headers of an upload: `Origin`, `Referer` (the origin and `/`), and
/// the `Cookie` when one is kept.
pub struct UploadHeaders {
    pub origin: String,
    pub referer: String,
    pub cookie: Option<String>,
}

/// The headers for an upload to `endpoint`.
pub fn upload_headers(session: &Session, endpoint: &ApiEndpoint) -> (r: UploadHeaders)
    ensures
        r.origin@ == spec_endpoint_origin(endpoint.url@),
        r.referer@ == spec_endpoint_origin(endpoint.url@) + "/"@,
        match spec_cookie_header(session.cookies@, endpoint.base@) {
            Some(h) => r.cookie matches Some(c) && c@ == h,
            None => r.cookie is None,
        },
{
    let origin = endpoint_origin(endpoint.url.as_str());
    let referer = string_of(
        concat_chars(chars_of(origin.as_str()).as_slice(), chars_of("/").as_slice()).as_slice(),
    );
    UploadHeaders { origin, referer, cookie: cookie_header_for(&session.cookies, endpoint.base.as_str()) }
}

/// What decoding a text with the standard Base64 alphabet and padding
/// gives, `None` when the text is not valid Base64.
pub uninterp spec fn base64_decode(s: Seq<char>) -> Option<Seq<u8>>;

/// `base64::engine::general_purpose::STANDARD.decode` (base64 crate).
/// Trusted: the result is the named result for the text, the error dropped.
#[verifier::external_body]
fn decode_base64(s: &str) -> (r: Option<Vec<u8>>)
    ensures
        match base64_decode(s@) {
            Some(b) => r matches Some(v) && v@ == b,
            None => r is None,
        },
{
    base64::engine::general_purpose::STANDARD.decode(s).ok()
}

/// The largest avatar and image upload, 5 MiB.
pub open spec fn max_image_bytes() -> int {
    5 * 1024 * 1024int
}

/// The largest voice upload, 10 MiB.
pub open spec fn max_voice_bytes() -> int {
    10 * 1024 * 1024int
}

/// An avatar upload that passed its checks: the file's bytes and MIME type.
pub struct AvatarUpload {
    pub bytes: Vec<u8>,
    pub mime: String,
}

/// The MIME type sent: the trimmed given type, or `default` when it is empty.
pub open spec fn spec_mime(mime: Seq<char>, default: Seq<char>) -> Seq<char> {
    if trim(mime).len() == 0 {
        default
    } else {
        trim(mime)
    }
}

fn mime_or(mime: &str, default: &str) -> (r: String)
    ensures
        r@ == spec_mime(mime@, default@),
{
    let t = trim_chars(chars_of(mime).as_slice(), Trim::Whitespace);
    if t.len() == 0 {
        default.to_string()
    } else {
        string_of(t.as_slice())
    }
}

/// The checks of an avatar upload: the trimmed text must be Base64
/// (`头像数据解析失败`), the file not empty (`头像文件为空`) and at most 5 MiB
/// (`头像不能超过 5MB`); the MIME type defaults to
/// `application/octet-stream`.
pub open spec fn spec_avatar_checks(decoded: Option<Seq<u8>>) -> Result<Seq<u8>, Seq<char>> {
    match decoded {
        None => Err("头像数据解析失败"@),
        Some(b) => if b.len() == 0 {
            Err("头像文件为空"@)
        } else if b.len() > max_image_bytes() {
            Err("头像不能超过 5MB"@)
        } else {
            Ok(b)
        },
    }
}

/// The checks of an avatar upload, on the Base64 text as it was handed in.
pub open spec fn spec_plan_avatar_upload(data_base64: Seq<char>) -> Result<Seq<u8>, Seq<char>> {
    spec_avatar_checks(base64_decode(trim(data_base64)))
}

/// Checks a decoded avatar (`None` when the text was not Base64), as
/// `spec_avatar_checks` describes.
pub fn avatar_upload_from(decoded: Option<Vec<u8>>, mime: &str) -> (r: Result<AvatarUpload, String>)
    ensures
        match spec_avatar_checks(opt_bytes(decoded)) {
            Ok(b) => r matches Ok(u) && u.bytes@ == b && u.mime@ == spec_mime(
                mime@,
                "application/octet-stream"@,
            ),
            Err(e) => r matches Err(m) && m@ == e,
        },
{
    let bytes = match decoded {
        Some(b) => b,
        None => return Err("头像数据解析失败".to_string()),
    };
    if bytes.len() == 0 {
        return Err("头像文件为空".to_string());
    }
    if bytes.len() > 5 * 1024 * 1024 {
        return Err("头像不能超过 5MB".to_string());
    }
    Ok(AvatarUpload { bytes, mime: mime_or(mime, "application/octet-stream") })
}

/// The bytes held, if any.
pub open spec fn opt_bytes(b: Option<Vec<u8>>) -> Option<Seq<u8>> {
    match b {
        Some(v) => Some(v@),
        None => None,
    }
}

/// Checks an avatar upload, as `spec_plan_avatar_upload` describes.
pub fn plan_avatar_upload(data_base64: &str, mime: &str) -> (r: Result<AvatarUpload, String>)
    ensures
        match spec_plan_avatar_upload(data_base64@) {
            Ok(b) => r matches Ok(u) && u.bytes@ == b && u.mime@ == spec_mime(
                mime@,
                "application/octet-stream"@,
            ),
            Err(e) => r matches Err(m) && m@ == e,
        },
{
    let t = string_of(trim_chars(chars_of(data_base64).as_slice(), Trim::Whitespace).as_slice());
    avatar_upload_from(decode_base64(t.as_str()), mime)
}

/// A chat file upload that passed its checks: where it goes, the form field
/// of the file, the message when it fails, the chat field and its value,
/// the extra text field and its value, the file's bytes and MIME type.
pub struct ChatUpload {
    pub path: String,
    pub field: String,
    pub fallback: String,
    pub id_field: String,
    pub id_value: String,
    pub extra_field: String,
    pub extra_value: String,
    pub bytes: Vec<u8>,
    pub mime: String,
}

/// The model of a chat file upload.
pub struct ChatUploadV {
    pub path: Seq<char>,
    pub field: Seq<char>,
    pub fallback: Seq<char>,
    pub id_field: Seq<char>,
    pub id_value: Seq<char>,
    pub extra_field: Seq<char>,
    pub extra_value: Seq<char>,
    pub bytes: Seq<u8>,
    pub mime: Seq<char>,
}

pub open spec fn chat_upload_v(u: ChatUpload) -> ChatUploadV {
    ChatUploadV {
        path: u.path@,
        field: u.field@,
        fallback: u.fallback@,
        id_field: u.id_field@,
        id_value: u.id_value@,
        extra_field: u.extra_field@,
        extra_value: u.extra_value@,
        bytes: u.bytes@,
        mime: u.mime@,
    }
}

/// The checks and fields of a chat file upload: the trimmed text must be
/// Base64 (`文件数据解析失败`) and the file not empty (`文件为空`); an image
/// goes to the group or private message route as field `img` with an empty
/// `content`, at most 5 MiB (`图片不能超过 5MB`); a voice message goes to the
/// voice route as field `voice` with its `duration` (negative or missing
/// read as 0), at most 10 MiB (`语音不能超过 10MB`); any other kind is
/// refused (`未知文件类型`), as is a chat id that is not positive
/// (`无效的聊天对象`). A group chat is named by `room_id`, a private one by
/// `friend_id`.
pub open spec fn spec_chat_upload_checks(
    decoded: Option<Seq<u8>>,
    kind: Seq<char>,
    target_id: i64,
    file_kind: Seq<char>,
    mime: Seq<char>,
    duration: Option<i64>,
) -> Result<ChatUploadV, Seq<char>> {
    match decoded {
        None => Err("文件数据解析失败"@),
        Some(b) => if b.len() == 0 {
            Err("文件为空"@)
        } else {
            let is_group = kind == "group"@;
            if file_kind == "image"@ && b.len() > max_image_bytes() {
                Err("图片不能超过 5MB"@)
            } else if file_kind == "voice"@ && b.len() > max_voice_bytes() {
                Err("语音不能超过 10MB"@)
            } else if file_kind != "image"@ && file_kind != "voice"@ {
                Err("未知文件类型"@)
            } else if target_id <= 0 {
                Err("无效的聊天对象"@)
            } else {
                let image = file_kind == "image"@;
                Ok(
                    ChatUploadV {
                        path: if image {
                            if is_group {
                                "/message/send_group_msg"@
                            } else {
                                "/message/send_private_msg"@
                            }
                        } else {
                            "/message/send_voice_msg"@
                        },
                        field: if image {
                            "img"@
                        } else {
                            "voice"@
                        },
                        fallback: if image {
                            "图片发送失败"@
                        } else {
                            "语音发送失败"@
                        },
                        id_field: if is_group {
                            "room_id"@
                        } else {
                            "friend_id"@
                        },
                        id_value: decimal(target_id as nat),
                        extra_field: if image {
                            "content"@
                        } else {
                            "duration"@
                        },
                        extra_value: if image {
                            Seq::empty()
                        } else {
                            match duration {
                                Some(d) if d > 0 => decimal(d as nat),
                                _ => "0"@,
                            }
                        },
                        bytes: b,
                        mime: spec_mime(
                            mime,
                            if image {
                                "application/octet-stream"@
                            } else {
                                "audio/webm"@
                            },
                        ),
                    },
                )
            }
        },
    }
}

/// An accepted chat file is sent as decoded, with the MIME type given
/// (trimmed) when it is not blank; only a blank type falls back, to
/// `application/octet-stream` for an image and `audio/webm` for a voice
/// message.
pub proof fn law_chat_upload_keeps_file(
    decoded: Option<Seq<u8>>,
    kind: Seq<char>,
    target_id: i64,
    file_kind: Seq<char>,
    mime: Seq<char>,
    duration: Option<i64>,
)
    ensures
        spec_chat_upload_checks(decoded, kind, target_id, file_kind, mime, duration) matches Ok(u)
            ==> {
            &&& decoded == Some(u.bytes)
            &&& u.mime == (if trim(mime).len() > 0 {
                trim(mime)
            } else if file_kind == "image"@ {
                "application/octet-stream"@
            } else {
                "audio/webm"@
            })
        },
{
}

/// Where an accepted chat file goes and how it is named: an image to the
/// group or private message route as `img`, a voice message to the voice
/// route as `voice`; a group chat by `room_id`, a private one by
/// `friend_id`, with the chat's id in decimal. A file that is not an image
/// or a voice message, or a chat id that is not positive, is never
/// accepted.
pub proof fn law_chat_upload_route(
    decoded: Option<Seq<u8>>,
    kind: Seq<char>,
    target_id: i64,
    file_kind: Seq<char>,
    mime: Seq<char>,
    duration: Option<i64>,
)
    ensures
        spec_chat_upload_checks(decoded, kind, target_id, file_kind, mime, duration) matches Ok(u)
            ==> {
            &&& target_id > 0
            &&& (file_kind == "image"@ || file_kind == "voice"@)
            &&& u.id_field == (if kind == "group"@ {
                "room_id"@
            } else {
                "friend_id"@
            })
            &&& u.id_value == decimal(target_id as nat)
            &&& (file_kind == "image"@ ==> u.field == "img"@ && u.path == (if kind == "group"@ {
                "/message/send_group_msg"@
            } else {
                "/message/send_private_msg"@
            }))
            &&& (file_kind == "voice"@ ==> u.field == "voice"@ && u.path
                == "/message/send_voice_msg"@)
        },
{
    reveal_strlit("image");
    reveal_strlit("voice");
    assert("image"@ != "voice"@) by {
        assert("image"@[0] != "voice"@[0]);
    }
}

/// The checks and fields of a chat file upload, on the Base64 text as it
/// was handed in.
pub open spec fn spec_plan_chat_upload(
    kind: Seq<char>,
    target_id: i64,
    file_kind: Seq<char>,
    mime: Seq<char>,
    data_base64: Seq<char>,
    duration: Option<i64>,
) -> Result<ChatUploadV, Seq<char>> {
    spec_chat_upload_checks(base64_decode(trim(data_base64)), kind, target_id, file_kind, mime, duration)
}

fn eq_str(a: &str, b: &str) -> (r: bool)
    ensures
        r == (a@ == b@),
{
    chars_eq(chars_of(a).as_slice(), chars_of(b).as_slice())
}

/// Checks a chat file upload and picks its fields, as
/// `spec_plan_chat_upload` describes.
pub fn plan_chat_upload(
    kind: &str,
    target_id: i64,
    file_kind: &str,
    mime: &str,
    data_base64: &str,
    duration: Option<i64>,
) -> (r: Result<ChatUpload, String>)
    ensures
        match spec_plan_chat_upload(kind@, target_id, file_kind@, mime@, data_base64@, duration) {
            Ok(u) => r matches Ok(x) && chat_upload_v(x) == u,
            Err(e) => r matches Err(m) && m@ == e,
        },
{
    let t = string_of(trim_chars(chars_of(data_base64).as_slice(), Trim::Whitespace).as_slice());
    chat_upload_from(decode_base64(t.as_str()), kind, target_id, file_kind, mime, duration)
}

/// Checks a decoded chat file (`None` when the text was not Base64) and
/// picks its fields, as `spec_chat_upload_checks` describes.
pub fn chat_upload_from(
    decoded: Option<Vec<u8>>,
    kind: &str,
    target_id: i64,
    file_kind: &str,
    mime: &str,
    duration: Option<i64>,
) -> (r: Result<ChatUpload, String>)
    ensures
        match spec_chat_upload_checks(opt_bytes(decoded), kind@, target_id, file_kind@, mime@, duration) {
            Ok(u) => r matches Ok(x) && chat_upload_v(x) == u,
            Err(e) => r matches Err(m) && m@ == e,
        },
{
    let bytes = match decoded {
        Some(b) => b,
        None => return Err("文件数据解析失败".to_string()),
    };
    if bytes.len() == 0 {
        return Err("文件为空".to_string());
    }
    let is_group = eq_str(kind, "group");
    let image = eq_str(file_kind, "image");
    let voice = eq_str(file_kind, "voice");
    proof {
        reveal_strlit("image");
        reveal_strlit("voice");
        assert("image"@ != "voice"@) by {
            assert("image"@[0] != "voice"@[0]);
        }
    }
    let (path, field, max_bytes, fallback) = if image {
        if bytes.len() > 5 * 1024 * 1024 {
            return Err("图片不能超过 5MB".to_string());
        }
        let path = if is_group {
            "/message/send_group_msg"
        } else {
            "/message/send_private_msg"
        };
        (path, "img", 5 * 1024 * 1024, "图片发送失败")
    } else if voice {
        if bytes.len() > 10 * 1024 * 1024 {
            return Err("语音不能超过 10MB".to_string());
        }
        ("/message/send_voice_msg", "voice", 10 * 1024 * 1024, "语音发送失败")
    } else {
        return Err("未知文件类型".to_string());
    };
    if target_id <= 0 {
        return Err("无效的聊天对象".to_string());
    }
    if bytes.len() > max_bytes {
        return Err(fallback.to_string());
    }
    let id_field = if is_group {
        "room_id"
    } else {
        "friend_id"
    };
    let (extra_field, extra_value) = if image {
        ("content", String::new())
    } else {
        let d: i64 = match duration {
            Some(d) => d,
            None => 0,
        };
        let d: i64 = if d > 0 {
            d
        } else {
            0
        };
        proof {
            reveal_strlit("0");
            assert(decimal(0) =~= "0"@);
        }
        let v = decimal_string(d as u64);
        assert(v@ == match duration {
            Some(x) if x > 0 => decimal(x as nat),
            _ => "0"@,
        });
        ("duration", v)
    };
    let mime = mime_or(
        mime,
        if image {
            "application/octet-stream"
        } else {
            "audio/webm"
        },
    );
    Ok(
        ChatUpload {
            path: path.to_string(),
            field: field.to_string(),
            fallback: fallback.to_string(),
            id_field: id_field.to_string(),
            id_value: decimal_string(target_id as u64),
            extra_field: extra_field.to_string(),
            extra_value,
            bytes,
            mime,
        },
    )
}

} // verus!
