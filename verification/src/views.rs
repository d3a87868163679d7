//! What the pages of the client show and allow: the checks of its forms,
//! the parameters they send, how a chat message is shown, and who may act
//! on whom.
use vstd::prelude::*;
use crate::frontend::{
    int_json, int_number, is_success, mark_read_params, message_of, message_time, spec_is_success,
    spec_mark_read_params, spec_message_of, spec_message_time, Message, UserProfile,
    group_list_from_field, groups_v, spec_group_list_from_field, Group, GroupV,
};
use crate::json::{
    get, i64_string, int_text, json_as_bool, json_as_i64, json_get, members_view, object, parse_i64,
    spec_parse_i64, Json, JsonV,
};
use crate::text::{chars_eq, chars_of, concat_chars, string_of, trim, trim_chars, Trim};
use crate::ui::{
    absolute_media, looks_like_media_path, spec_absolute_media, spec_looks_like_media_path,
    Page, ReportTarget,
};

verus! {

broadcast use vstd::string::group_string_axioms;

fn trimmed(s: &str) -> (r: String)
    ensures
        r@ == trim(s@),
{
    string_of(trim_chars(chars_of(s).as_slice(), Trim::Whitespace).as_slice())
}

fn cat(a: &str, b: &str) -> (r: String)
    ensures
        r@ == a@ + b@,
{
    string_of(concat_chars(chars_of(a).as_slice(), chars_of(b).as_slice()).as_slice())
}

/// The number typed into an id field: the trimmed text read as an
/// integer, 0 when it is not one.
pub open spec fn spec_id_input(text: Seq<char>) -> i64 {
    match spec_parse_i64(trim(text)) {
        Some(n) => n,
        None => 0,
    }
}

/// The number typed into an id field, as `spec_id_input` describes.
pub fn id_input(text: &str) -> (r: i64)
    ensures
        r == spec_id_input(text@),
{
    let t = trimmed(text);
    match parse_i64(t.as_str()) {
        Some(n) => n,
        None => 0,
    }
}

/// The number chosen in a select box: its value read as an integer, 1
/// when it is not one.
pub fn select_number(value: &str) -> (r: i64)
    ensures
        r == (match spec_parse_i64(value@) {
            Some(n) => n,
            None => 1,
        }),
{
    match parse_i64(value) {
        Some(n) => n,
        None => 1,
    }
}

/// The group id to look up: a positive number, else `请输入有效群组编号`.
pub fn group_id_search(text: &str) -> (r: Result<i64, String>)
    ensures
        spec_id_input(text@) > 0 ==> r == Ok::<i64, String>(spec_id_input(text@)),
        spec_id_input(text@) <= 0 ==> (r matches Err(e) && e@ == "请输入有效群组编号"@),
{
    let id = id_input(text);
    if id <= 0 {
        Err("请输入有效群组编号".to_string())
    } else {
        Ok(id)
    }
}

/// The user id to look up: a positive number other than the user's own,
/// else `请输入有效用户 ID`.
pub fn user_id_search(text: &str, my_uid: i64) -> (r: Result<i64, String>)
    ensures
        ({
            let id = spec_id_input(text@);
            &&& (id > 0 && id != my_uid) ==> r == Ok::<i64, String>(id)
            &&& !(id > 0 && id != my_uid) ==> (r matches Err(e) && e@ == "请输入有效用户 ID"@)
        }),
{
    let id = id_input(text);
    if id <= 0 || id == my_uid {
        Err("请输入有效用户 ID".to_string())
    } else {
        Ok(id)
    }
}

/// The user a group is handed over to: a positive number other than the
/// user's own, else `请输入有效的接收人 UID`.
pub fn transfer_target(text: &str, my_uid: i64) -> (r: Result<i64, String>)
    ensures
        ({
            let id = spec_id_input(text@);
            &&& (id > 0 && id != my_uid) ==> r == Ok::<i64, String>(id)
            &&& !(id > 0 && id != my_uid) ==> (r matches Err(e) && e@ == "请输入有效的接收人 UID"@)
        }),
{
    let id = id_input(text);
    if id <= 0 || id == my_uid {
        Err("请输入有效的接收人 UID".to_string())
    } else {
        Ok(id)
    }
}

/// The parameters of a change of display name: the trimmed name, which
/// must not be empty (`显示名称不能为空`).
pub fn nickname_payload(text: &str) -> (r: Result<Json, String>)
    ensures
        trim(text@).len() == 0 ==> (r matches Err(e) && e@ == "显示名称不能为空"@),
        trim(text@).len() > 0 ==> (r matches Ok(j) && j@ == JsonV::Object(
            seq![("action"@, JsonV::Str("nickname"@)), ("nickname"@, JsonV::Str(trim(text@)))],
        )),
{
    let value = trimmed(text);
    if value.as_str().is_empty() {
        return Err("显示名称不能为空".to_string());
    }
    let mut m: Vec<(String, Json)> = Vec::new();
    m.push(("action".to_string(), Json::Str("nickname".to_string())));
    m.push(("nickname".to_string(), Json::Str(value)));
    assert(members_view(m@) =~= seq![
        ("action"@, JsonV::Str("nickname"@)),
        ("nickname"@, JsonV::Str(trim(text@))),
    ]);
    Ok(object(m))
}

/// The parameters of a change of password: the three fields as typed,
/// none of which may be empty (`请填写完整密码信息`).
pub fn password_payload(old: &str, new: &str, confirm: &str) -> (r: Result<Json, String>)
    ensures
        (old@.len() == 0 || new@.len() == 0 || confirm@.len() == 0) ==> (r matches Err(e) && e@
            == "请填写完整密码信息"@),
        !(old@.len() == 0 || new@.len() == 0 || confirm@.len() == 0) ==> (r matches Ok(j) && j@
            == JsonV::Object(
            seq![
                ("action"@, JsonV::Str("password"@)),
                ("old_password"@, JsonV::Str(old@)),
                ("new_password"@, JsonV::Str(new@)),
                ("confirm_password"@, JsonV::Str(confirm@)),
            ],
        )),
{
    if old.is_empty() || new.is_empty() || confirm.is_empty() {
        return Err("请填写完整密码信息".to_string());
    }
    let mut m: Vec<(String, Json)> = Vec::new();
    m.push(("action".to_string(), Json::Str("password".to_string())));
    m.push(("old_password".to_string(), Json::Str(old.to_string())));
    m.push(("new_password".to_string(), Json::Str(new.to_string())));
    m.push(("confirm_password".to_string(), Json::Str(confirm.to_string())));
    assert(members_view(m@) =~= seq![
        ("action"@, JsonV::Str("password"@)),
        ("old_password"@, JsonV::Str(old@)),
        ("new_password"@, JsonV::Str(new@)),
        ("confirm_password"@, JsonV::Str(confirm@)),
    ]);
    Ok(object(m))
}

/// The parameters of a report: the target, the trimmed reason, which must
/// be at least 10 characters (`举报原因至少需要 10 个字符`), and whether it
/// is anonymous.
pub open spec fn spec_report_payload(target: ReportTarget, reason: Seq<char>, anonymous: Seq<
    char,
>) -> Result<Seq<(Seq<char>, JsonV)>, Seq<char>> {
    let r = trim(reason);
    if r.len() < 10 {
        Err("举报原因至少需要 10 个字符"@)
    } else {
        match target {
            ReportTarget::User { uid, username, nickname } => Ok(
                seq![
                    ("type"@, JsonV::Str("user"@)),
                    ("uid"@, int_json(uid)),
                    ("username"@, JsonV::Str(username@)),
                    ("nickname"@, JsonV::Str(nickname@)),
                    ("reason"@, JsonV::Str(r)),
                    ("anonymous"@, JsonV::Str(anonymous)),
                ],
            ),
            ReportTarget::Group { room_id, room_name } => Ok(
                seq![
                    ("type"@, JsonV::Str("group"@)),
                    ("rid"@, int_json(room_id)),
                    ("room_name"@, JsonV::Str(room_name@)),
                    ("reason"@, JsonV::Str(r)),
                    ("anonymous"@, JsonV::Str(anonymous)),
                ],
            ),
        }
    }
}

/// The parameters of a report, as `spec_report_payload` describes.
pub fn report_payload(target: &ReportTarget, reason: &str, anonymous: &str) -> (r: Result<
    Json,
    String,
>)
    ensures
        match spec_report_payload(*target, reason@, anonymous@) {
            Ok(m) => r matches Ok(j) && j@ == JsonV::Object(m),
            Err(e) => r matches Err(x) && x@ == e,
        },
{
    let r = trim_chars(chars_of(reason).as_slice(), Trim::Whitespace);
    if r.len() < 10 {
        return Err("举报原因至少需要 10 个字符".to_string());
    }
    let reason_text = string_of(r.as_slice());
    let mut m: Vec<(String, Json)> = Vec::new();
    match target {
        ReportTarget::User { uid, username, nickname } => {
            m.push(("type".to_string(), Json::Str("user".to_string())));
            m.push(("uid".to_string(), int_number(*uid)));
            m.push(("username".to_string(), Json::Str(username.clone())));
            m.push(("nickname".to_string(), Json::Str(nickname.clone())));
            m.push(("reason".to_string(), Json::Str(reason_text)));
            m.push(("anonymous".to_string(), Json::Str(anonymous.to_string())));
        },
        ReportTarget::Group { room_id, room_name } => {
            m.push(("type".to_string(), Json::Str("group".to_string())));
            m.push(("rid".to_string(), int_number(*room_id)));
            m.push(("room_name".to_string(), Json::Str(room_name.clone())));
            m.push(("reason".to_string(), Json::Str(reason_text)));
            m.push(("anonymous".to_string(), Json::Str(anonymous.to_string())));
        },
    }
    assert(members_view(m@) =~= spec_report_payload(*target, reason@, anonymous@)->Ok_0);
    Ok(object(m))
}

/// A text, or `placeholder` when it is blank.
pub fn or_placeholder(text: &str, placeholder: &str) -> (r: String)
    ensures
        r@ == (if trim(text@).len() == 0 {
            placeholder@
        } else {
            text@
        }),
{
    if trim_chars(chars_of(text).as_slice(), Trim::Whitespace).len() == 0 {
        placeholder.to_string()
    } else {
        text.to_string()
    }
}

/// A name, or `prefix` and the id when there is none (`群组 7`, `用户 7`).
pub fn name_or_id(name: Option<String>, prefix: &str, id: i64) -> (r: String)
    ensures
        r@ == (match name {
            Some(n) => n@,
            None => prefix@ + int_text(id as int),
        }),
{
    match name {
        Some(n) => n,
        None => cat(prefix, i64_string(id).as_str()),
    }
}

/// The invitation code line: the code when it may be seen and is set, or
/// why it is not shown.
pub fn invite_code_text(can_view: bool, code: &str) -> (r: String)
    ensures
        r@ == (if can_view && trim(code@).len() > 0 {
            code@
        } else if can_view {
            "当前没有可显示的邀请码"@
        } else {
            "当前身份不可查看邀请码"@
        }),
{
    if can_view && trim_chars(chars_of(code).as_slice(), Trim::Whitespace).len() > 0 {
        code.to_string()
    } else if can_view {
        "当前没有可显示的邀请码".to_string()
    } else {
        "当前身份不可查看邀请码".to_string()
    }
}

/// What a manager may do to a member: whether they may mute or remove
/// them (owners and admins, never to themselves or the owner), and whether
/// they may make or unmake them an admin (the owner only, likewise).
pub fn member_permissions(
    is_owner: bool,
    is_admin: bool,
    my_uid: i64,
    member_uid: i64,
    member_is_owner: bool,
) -> (r: (bool, bool))
    ensures
        r.0 == ((is_owner || is_admin) && member_uid != my_uid && !member_is_owner),
        r.1 == (is_owner && member_uid != my_uid && !member_is_owner),
{
    let can_manage = is_owner || is_admin;
    (
        can_manage && member_uid != my_uid && !member_is_owner,
        is_owner && member_uid != my_uid && !member_is_owner,
    )
}

/// What a profile page offers.
pub struct ProfileActions {
    /// The profile is the user's own.
    pub is_self: bool,
    /// A private chat can be opened.
    pub chat: bool,
    /// A friend request can be sent.
    pub add: bool,
    /// The user can be reported.
    pub report: bool,
    /// The name shown.
    pub nickname: String,
}

/// What the profile `user` offers to the user `my_uid`: a profile is one's
/// own when it says so or has one's id; on another's profile, a chat with
/// a friend, a request when one can be sent, and a report; the name is the
/// nickname or `用户` and the id.
pub fn profile_actions(user: &UserProfile, my_uid: i64) -> (r: ProfileActions)
    ensures
        r.is_self == (user.is_self || user.uid == my_uid),
        r.chat == (!r.is_self && user.is_friend),
        r.add == (!r.is_self && user.can_add_friend),
        r.report == !r.is_self,
        r.nickname@ == (match user.nickname {
            Some(n) => n@,
            None => "用户 "@ + int_text(user.uid as int),
        }),
{
    let is_self = user.is_self || user.uid == my_uid;
    ProfileActions {
        is_self,
        chat: !is_self && user.is_friend,
        add: !is_self && user.can_add_friend,
        report: !is_self,
        nickname: name_or_id(user.nickname.clone(), "用户 ", user.uid),
    }
}

/// How the body of a chat message is shown.
pub enum MessageBody {
    /// The message was recalled.
    Recalled,
    /// An image, at this address.
    Image(String),
    /// A voice message of so many seconds, at this address (empty when it
    /// has none).
    Voice(i64, String),
    /// A text.
    Text(String),
}

pub enum MessageBodyV {
    Recalled,
    Image(Seq<char>),
    Voice(i64, Seq<char>),
    Text(Seq<char>),
}

pub open spec fn body_view(b: MessageBody) -> MessageBodyV {
    match b {
        MessageBody::Recalled => MessageBodyV::Recalled,
        MessageBody::Image(u) => MessageBodyV::Image(u@),
        MessageBody::Voice(s, u) => MessageBodyV::Voice(s, u@),
        MessageBody::Text(t) => MessageBodyV::Text(t@),
    }
}

/// How a chat message is shown.
pub struct MessageShown {
    /// Who sent it (0 when unknown).
    pub sender: i64,
    /// Whether the user sent it.
    pub is_me: bool,
    /// The sender's name.
    pub sender_name: String,
    /// When it was sent.
    pub time: String,
    /// Whether it mentions or answers the user.
    pub alert: bool,
    /// Whether the other side has read it, for the user's own messages in a
    /// private chat that are not recalled.
    pub read: Option<bool>,
    /// Its body.
    pub body: MessageBody,
}

/// The model of a shown message.
pub struct MessageShownV {
    pub sender: i64,
    pub is_me: bool,
    pub sender_name: Seq<char>,
    pub time: Seq<char>,
    pub alert: bool,
    pub read: Option<bool>,
    pub body: MessageBodyV,
}

pub open spec fn shown_view(m: MessageShown) -> MessageShownV {
    MessageShownV {
        sender: m.sender,
        is_me: m.is_me,
        sender_name: m.sender_name@,
        time: m.time@,
        alert: m.alert,
        read: m.read,
        body: body_view(m.body),
    }
}

/// A text that is present and not blank.
pub open spec fn filled(t: Option<String>) -> Option<Seq<char>> {
    match t {
        Some(s) => if trim(s@).len() > 0 {
            Some(s@)
        } else {
            None
        },
        None => None,
    }
}

/// How the message `msg` is shown to the user `my_uid` in a chat of
/// `kind`: the sender is `from_uid`, else `uid`; the user's own messages
/// are named `我`, others by nickname or `用户` and the id; a recalled
/// message shows as such; an image (type 2, an image address, or a content
/// that is a media path) shows by its absolute address; a voice message
/// (type 3 or a voice address) by its length (not below 0) and absolute
/// address; anything else by its content.
pub open spec fn spec_message_shown(msg: Message, my_uid: i64, private: bool) -> MessageShownV {
    let sender = match msg.from_uid {
        Some(u) => u,
        None => match msg.uid {
            Some(u) => u,
            None => 0,
        },
    };
    let is_me = sender == my_uid;
    let recalled = match msg.is_recalled {
        Some(r) => r != 0,
        None => false,
    };
    let image_url = filled(msg.image_url);
    let voice_url = filled(msg.voice_url);
    let content_url = match msg.content {
        Some(c) => if spec_looks_like_media_path(c@) {
            Some(c@)
        } else {
            None
        },
        None => None,
    };
    let is_image = msg.msg_type == Some(2i64) || image_url is Some || content_url is Some;
    let is_voice = msg.msg_type == Some(3i64) || voice_url is Some;
    let seconds = match msg.duration {
        Some(d) => d,
        None => match msg.voice_duration {
            Some(d) => d,
            None => 0,
        },
    };
    MessageShownV {
        sender,
        is_me,
        sender_name: if is_me {
            "我"@
        } else {
            match msg.nickname {
                Some(n) => n@,
                None => "用户 "@ + int_text(sender as int),
            }
        },
        time: spec_message_time(msg),
        alert: msg.is_mentioned == Some(true) || msg.reply_to_me == Some(true),
        read: if private && is_me && !recalled {
            Some(
                match msg.is_read {
                    Some(r) => r != 0,
                    None => false,
                },
            )
        } else {
            None
        },
        body: if recalled {
            MessageBodyV::Recalled
        } else if is_image {
            MessageBodyV::Image(
                spec_absolute_media(
                    match image_url {
                        Some(u) => u,
                        None => match content_url {
                            Some(u) => u,
                            None => Seq::empty(),
                        },
                    },
                ),
            )
        } else if is_voice {
            MessageBodyV::Voice(
                if seconds > 0 {
                    seconds
                } else {
                    0
                },
                spec_absolute_media(
                    match voice_url {
                        Some(u) => u,
                        None => Seq::empty(),
                    },
                ),
            )
        } else {
            MessageBodyV::Text(
                match msg.content {
                    Some(c) => c@,
                    None => Seq::empty(),
                },
            )
        },
    }
}

/// A message that is not recalled and has a non-blank image address shows
/// as that image, at the address made absolute; a recalled message shows
/// as recalled.
pub proof fn law_message_image_shown(msg: Message, my_uid: i64, private: bool)
    ensures
        ((msg.is_recalled is None || msg.is_recalled == Some(0i64)) && (msg.image_url matches Some(
            u,
        ) && trim(u@).len() > 0)) ==> spec_message_shown(msg, my_uid, private).body
            == MessageBodyV::Image(spec_absolute_media(msg.image_url->0@)),
        (msg.is_recalled matches Some(r) && r != 0) ==> spec_message_shown(
            msg,
            my_uid,
            private,
        ).body == MessageBodyV::Recalled,
{
}

/// Who a message is from and how it reads: the sender is `from_uid`,
/// else `uid`; it is the user's own exactly when that is the user; the
/// user's own messages are named `我`, another's by their nickname when it
/// has one; a read receipt is shown for the user's own, not recalled
/// messages in a private chat only; a message that is not recalled, has
/// no image or voice type or address and whose content is plain text shows
/// that text; a voice message (type 3, no image) shows its length, never
/// below 0.
pub proof fn law_message_shown_parts(msg: Message, my_uid: i64, private: bool)
    ensures
        ({
            let m = spec_message_shown(msg, my_uid, private);
            let recalled = msg.is_recalled matches Some(r) && r != 0;
            &&& (msg.from_uid matches Some(u) ==> m.sender == u)
            &&& (msg.from_uid is None ==> (msg.uid matches Some(u) ==> m.sender == u))
            &&& m.is_me == (m.sender == my_uid)
            &&& (m.is_me ==> m.sender_name == "我"@)
            &&& (!m.is_me ==> (msg.nickname matches Some(n) ==> m.sender_name == n@))
            &&& (m.read is Some <==> (private && m.is_me && !recalled))
            &&& (m.read matches Some(b) ==> b == (msg.is_read matches Some(r) && r != 0))
            &&& ((!recalled && msg.msg_type != Some(2i64) && msg.msg_type != Some(3i64)
                && msg.image_url is None && msg.voice_url is None && (msg.content matches Some(c)
                && !spec_looks_like_media_path(c@))) ==> m.body == MessageBodyV::Text(
                msg.content->0@,
            ))
            &&& ((!recalled && msg.msg_type == Some(3i64) && msg.image_url is None
                && msg.content is None) ==> (m.body matches MessageBodyV::Voice(secs, _) && secs
                >= 0 && ((msg.duration is Some && msg.duration->0 > 0) ==> secs == msg.duration->0)))
        }),
{
}

fn filled_exec(t: &Option<String>) -> (r: Option<String>)
    ensures
        match filled(*t) {
            Some(s) => r matches Some(x) && x@ == s,
            None => r is None,
        },
{
    match t {
        Some(s) => if trim_chars(chars_of(s.as_str()).as_slice(), Trim::Whitespace).len() > 0 {
            Some(s.clone())
        } else {
            None
        },
        None => None,
    }
}

/// How the message `msg` is shown to the user `my_uid` in a chat of `kind`
/// (`private` or not), as `spec_message_shown` describes.
pub fn message_shown(msg: &Message, my_uid: i64, kind: &str) -> (r: MessageShown)
    ensures
        shown_view(r) == spec_message_shown(*msg, my_uid, kind@ == "private"@),
{
    let private = chars_eq(chars_of(kind).as_slice(), chars_of("private").as_slice());
    let sender: i64 = match msg.from_uid {
        Some(u) => u,
        None => match msg.uid {
            Some(u) => u,
            None => 0,
        },
    };
    let is_me = sender == my_uid;
    let recalled = match msg.is_recalled {
        Some(r) => r != 0,
        None => false,
    };
    let image_url = filled_exec(&msg.image_url);
    let voice_url = filled_exec(&msg.voice_url);
    let content_url = match &msg.content {
        Some(c) => if looks_like_media_path(c.as_str()) {
            Some(c.clone())
        } else {
            None
        },
        None => None,
    };
    let is_image = msg.msg_type == Some(2i64) || image_url.is_some() || content_url.is_some();
    let is_voice = msg.msg_type == Some(3i64) || voice_url.is_some();
    let seconds: i64 = match msg.duration {
        Some(d) => d,
        None => match msg.voice_duration {
            Some(d) => d,
            None => 0,
        },
    };
    let sender_name = if is_me {
        "我".to_string()
    } else {
        name_or_id(msg.nickname.clone(), "用户 ", sender)
    };
    let read = if private && is_me && !recalled {
        Some(
            match msg.is_read {
                Some(r) => r != 0,
                None => false,
            },
        )
    } else {
        None
    };
    let body = if recalled {
        MessageBody::Recalled
    } else if is_image {
        let url = match image_url {
            Some(u) => u,
            None => match content_url {
                Some(u) => u,
                None => String::new(),
            },
        };
        MessageBody::Image(absolute_media(url))
    } else if is_voice {
        let url = match voice_url {
            Some(u) => u,
            None => String::new(),
        };
        MessageBody::Voice(
            if seconds > 0 {
                seconds
            } else {
                0
            },
            absolute_media(url),
        )
    } else {
        MessageBody::Text(
            match &msg.content {
                Some(c) => c.clone(),
                None => String::new(),
            },
        )
    };
    MessageShown {
        sender,
        is_me,
        sender_name,
        time: message_time(msg),
        alert: msg.is_mentioned == Some(true) || msg.reply_to_me == Some(true),
        read,
        body,
    }
}

/// What sending from a chat's composer does.
pub enum SendStep {
    /// Nothing: no text and no file.
    Nothing,
    /// Refused, with this message.
    Refused(String),
    /// The chosen image is uploaded.
    Image,
    /// The chosen voice message is uploaded.
    Voice,
    /// The text is sent to this path with these parameters.
    Text(String, Json),
}

/// What sending from the composer of the chat `target_id` (a group chat or
/// not) does with the text `content` and the chosen files: nothing when
/// there is no text and no file; both an image and a voice message are
/// refused (`图片和语音请分开发送`); a file is uploaded; otherwise the text is
/// sent as it was typed.
pub fn chat_send_step(kind: &str, target_id: i64, content: &str, has_image: bool, has_voice: bool) -> (r: SendStep)
    ensures
        (trim(content@).len() == 0 && !has_image && !has_voice) ==> r is Nothing,
        !(trim(content@).len() == 0 && !has_image && !has_voice) ==> {
            if has_image && has_voice {
                r matches SendStep::Refused(m) && m@ == "图片和语音请分开发送"@
            } else if has_image {
                r is Image
            } else if has_voice {
                r is Voice
            } else if kind@ == "group"@ {
                r matches SendStep::Text(p, j) && p@ == "/message/send_group_msg"@ && j@ == JsonV::Object(
                    seq![("room_id"@, int_json(target_id)), ("content"@, JsonV::Str(content@))],
                )
            } else {
                r matches SendStep::Text(p, j) && p@ == "/message/send_private_msg"@ && j@ == JsonV::Object(
                    seq![("friend_id"@, int_json(target_id)), ("content"@, JsonV::Str(content@))],
                )
            }
        },
{
    let blank = trim_chars(chars_of(content).as_slice(), Trim::Whitespace).len() == 0;
    if blank && !has_image && !has_voice {
        return SendStep::Nothing;
    }
    if has_image && has_voice {
        return SendStep::Refused("图片和语音请分开发送".to_string());
    }
    if has_image {
        return SendStep::Image;
    }
    if has_voice {
        return SendStep::Voice;
    }
    let group = chars_eq(chars_of(kind).as_slice(), chars_of("group").as_slice());
    let mut m: Vec<(String, Json)> = Vec::new();
    let key = if group {
        "room_id"
    } else {
        "friend_id"
    };
    m.push((key.to_string(), int_number(target_id)));
    m.push(("content".to_string(), Json::Str(content.to_string())));
    assert(members_view(m@) =~= seq![(key@, int_json(target_id)), ("content"@, JsonV::Str(content@))]);
    let path = if group {
        "/message/send_group_msg"
    } else {
        "/message/send_private_msg"
    };
    SendStep::Text(path.to_string(), object(m))
}

/// The line under a friend request: its message, or what kind of
/// request it is (kind 2 asks to restore a friendship).
pub fn friend_request_text(content: Option<String>, kind: Option<i64>) -> (r: String)
    ensures
        r@ == (match content {
            Some(c) => c@,
            None => if kind == Some(2i64) {
                "请求恢复好友关系"@
            } else {
                "请求添加好友"@
            },
        }),
{
    match content {
        Some(c) => c,
        None => if kind == Some(2i64) {
            "请求恢复好友关系".to_string()
        } else {
            "请求添加好友".to_string()
        },
    }
}

/// Whether an ended friendship is restored directly: when the user was
/// the one who ended it.
pub fn recover_directly(delete_by: Option<i64>, my_uid: i64) -> (r: bool)
    ensures
        r == (match delete_by {
            Some(d) => d,
            None => 0,
        } == my_uid),
{
    let by: i64 = match delete_by {
        Some(d) => d,
        None => 0,
    };
    by == my_uid
}

/// One request that a page sends: its route and parameters, and the
/// fallback status texts for an answer that reports success and for one
/// that does not.
pub struct ActionRequest {
    pub path: String,
    pub params: Json,
    pub done: String,
    pub failed: String,
}

/// The model of a request.
pub struct ActionRequestV {
    pub path: Seq<char>,
    pub params: JsonV,
    pub done: Seq<char>,
    pub failed: Seq<char>,
}

pub open spec fn request_view(r: ActionRequest) -> ActionRequestV {
    ActionRequestV { path: r.path@, params: r.params@, done: r.done@, failed: r.failed@ }
}

/// What follows the answer `data` to a request: whether it reports
/// success (a page then clears its form and refreshes), and the status
/// shown, the answer's message with the attempts made, or the fallback
/// for success or failure.
pub open spec fn spec_answer_outcome(done: Seq<char>, failed: Seq<char>, data: JsonV) -> (
    bool,
    Seq<char>,
) {
    if spec_is_success(data) {
        (true, spec_message_of(data, done))
    } else {
        (false, spec_message_of(data, failed))
    }
}

/// What follows the answer `data` to the request `req`, as
/// `spec_answer_outcome` describes.
pub fn answer_outcome(req: &ActionRequest, data: &Json) -> (r: (bool, String))
    ensures
        (r.0, r.1@) == spec_answer_outcome(req.done@, req.failed@, data@),
{
    if is_success(data) {
        (true, message_of(data, req.done.as_str()))
    } else {
        (false, message_of(data, req.failed.as_str()))
    }
}

fn request(path: &str, params: Json, done: &str, failed: &str) -> (r: ActionRequest)
    ensures
        request_view(r) == (ActionRequestV {
            path: path@,
            params: params@,
            done: done@,
            failed: failed@,
        }),
{
    ActionRequest {
        path: path.to_string(),
        params,
        done: done.to_string(),
        failed: failed.to_string(),
    }
}

/// The one request of a change of password: the parameters of
/// `password_payload`, posted to `/user/update_profile`; `请填写完整密码信息`
/// and no request when a field is empty.
pub fn password_request(old: &str, new: &str, confirm: &str) -> (r: Result<ActionRequest, String>)
    ensures
        (old@.len() == 0 || new@.len() == 0 || confirm@.len() == 0) ==> (r matches Err(e) && e@
            == "请填写完整密码信息"@),
        !(old@.len() == 0 || new@.len() == 0 || confirm@.len() == 0) ==> (r matches Ok(q)
            && request_view(q) == ActionRequestV {
            path: "/user/update_profile"@,
            params: JsonV::Object(
                seq![
                    ("action"@, JsonV::Str("password"@)),
                    ("old_password"@, JsonV::Str(old@)),
                    ("new_password"@, JsonV::Str(new@)),
                    ("confirm_password"@, JsonV::Str(confirm@)),
                ],
            ),
            done: "密码已更新为 SHA-256 存储"@,
            failed: "密码修改失败"@,
        }),
{
    match password_payload(old, new, confirm) {
        Ok(p) => Ok(request("/user/update_profile", p, "密码已更新为 SHA-256 存储", "密码修改失败")),
        Err(e) => Err(e),
    }
}

/// The one request of a change of display name: the parameters of
/// `nickname_payload`, posted to `/user/update_profile`; `显示名称不能为空`
/// and no request when the name is blank.
pub fn nickname_request(text: &str) -> (r: Result<ActionRequest, String>)
    ensures
        trim(text@).len() == 0 ==> (r matches Err(e) && e@ == "显示名称不能为空"@),
        trim(text@).len() > 0 ==> (r matches Ok(q) && request_view(q) == ActionRequestV {
            path: "/user/update_profile"@,
            params: JsonV::Object(
                seq![("action"@, JsonV::Str("nickname"@)), ("nickname"@, JsonV::Str(trim(text@)))],
            ),
            done: "显示名称已更新"@,
            failed: "显示名称更新失败"@,
        }),
{
    match nickname_payload(text) {
        Ok(p) => Ok(request("/user/update_profile", p, "显示名称已更新", "显示名称更新失败")),
        Err(e) => Err(e),
    }
}

/// The one request of a report: the parameters of `report_payload`, posted
/// to `/report/submit_report`; the refusal of `report_payload` and no
/// request when the reason is too short.
pub fn report_request(target: &ReportTarget, reason: &str, anonymous: &str) -> (r: Result<
    ActionRequest,
    String,
>)
    ensures
        match spec_report_payload(*target, reason@, anonymous@) {
            Ok(m) => r matches Ok(q) && request_view(q) == ActionRequestV {
                path: "/report/submit_report"@,
                params: JsonV::Object(m),
                done: "举报已提交"@,
                failed: "举报提交失败"@,
            },
            Err(e) => r matches Err(x) && x@ == e,
        },
{
    match report_payload(target, reason, anonymous) {
        Ok(p) => Ok(request("/report/submit_report", p, "举报已提交", "举报提交失败")),
        Err(e) => Err(e),
    }
}

/// The request that marks a loaded chat read: the parameters of
/// `mark_read_params` posted to `/message/mark_read`, or no request when
/// there are none. Its answer is not read.
pub fn mark_read_request(kind: &str, target_id: i64, data: &Json) -> (r: Option<(String, Json)>)
    ensures
        match spec_mark_read_params(kind@ == "group"@, target_id, data@) {
            Some(m) => r matches Some((p, j)) && p@ == "/message/mark_read"@ && j@ == JsonV::Object(
                m,
            ),
            None => r is None,
        },
{
    match mark_read_params(kind, target_id, data) {
        Some(p) => Some(("/message/mark_read".to_string(), p)),
        None => None,
    }
}

/// The panels of the group management page that the user sees.
pub struct GroupPanels {
    /// The forms that edit the name, introduction and notice.
    pub edit_info: bool,
    /// The form of the join rule and visibility settings.
    pub join_settings: bool,
    /// The button that resets the invitation code.
    pub reset_invite: bool,
    /// The panel of applications to join.
    pub applications: bool,
    /// The owner's transfer and disband actions.
    pub owner_actions: bool,
}

/// Which panels of the group management page an owner or admin sees: the
/// edit and settings forms to both (others see the values only), the
/// invitation reset and the transfer and disband actions to the owner,
/// and the applications to an admin.
pub fn group_manage_panels(is_owner: bool, is_admin: bool) -> (r: GroupPanels)
    ensures
        r.edit_info == (is_owner || is_admin),
        r.join_settings == (is_owner || is_admin),
        r.reset_invite == ((is_owner || is_admin) && is_owner),
        r.applications == is_admin,
        r.owner_actions == is_owner,
{
    let can_manage = is_owner || is_admin;
    GroupPanels {
        edit_info: can_manage,
        join_settings: can_manage,
        reset_invite: can_manage && is_owner,
        applications: is_admin,
        owner_actions: is_owner,
    }
}

/// The mute button of a member row: unmuting a muted member (`解禁`),
/// else muting (`禁言`).
pub fn mute_button(is_muted: bool) -> (r: (&'static str, &'static str))
    ensures
        (r.0@, r.1@) == (if is_muted {
            ("unmute"@, "解禁"@)
        } else {
            ("mute"@, "禁言"@)
        }),
{
    if is_muted {
        ("unmute", "解禁")
    } else {
        ("mute", "禁言")
    }
}

/// The admin button of a member row: removing an admin (`撤销管理`), else
/// making one (`设为管理`).
pub fn admin_button(is_admin: bool) -> (r: (&'static str, &'static str))
    ensures
        (r.0@, r.1@) == (if is_admin {
            ("remove"@, "撤销管理"@)
        } else {
            ("set"@, "设为管理"@)
        }),
{
    if is_admin {
        ("remove", "撤销管理")
    } else {
        ("set", "设为管理")
    }
}

/// The request that hands the group `room_id` over: the target of
/// `transfer_target`, posted to `/group/transfer`; its refusal and no
/// request otherwise.
pub fn transfer_request(room_id: i64, text: &str, my_uid: i64) -> (r: Result<ActionRequest, String>)
    ensures
        ({
            let id = spec_id_input(text@);
            &&& (id > 0 && id != my_uid) ==> (r matches Ok(q) && request_view(q)
                == ActionRequestV {
                path: "/group/transfer"@,
                params: JsonV::Object(
                    seq![("room_id"@, int_json(room_id)), ("target_uid"@, int_json(id))],
                ),
                done: "群组转让申请已发送"@,
                failed: "群组操作失败"@,
            })
            &&& !(id > 0 && id != my_uid) ==> (r matches Err(e) && e@ == "请输入有效的接收人 UID"@)
        }),
{
    let target = match transfer_target(text, my_uid) {
        Ok(t) => t,
        Err(e) => return Err(e),
    };
    let mut m: Vec<(String, Json)> = Vec::new();
    m.push(("room_id".to_string(), int_number(room_id)));
    m.push(("target_uid".to_string(), int_number(target)));
    assert(members_view(m@) =~= seq![("room_id"@, int_json(room_id)), ("target_uid"@, int_json(target))]);
    Ok(request("/group/transfer", object(m), "群组转让申请已发送", "群组操作失败"))
}

/// The request of a group action that names the room alone: disbanding
/// (`/group/disband`) or resetting the invitation code
/// (`/group/reset_invite_code`).
pub fn room_action_request(room_id: i64, disband: bool) -> (r: ActionRequest)
    ensures
        request_view(r) == (if disband {
            ActionRequestV {
                path: "/group/disband"@,
                params: JsonV::Object(seq![("room_id"@, int_json(room_id))]),
                done: "群组已提交解散"@,
                failed: "群组操作失败"@,
            }
        } else {
            ActionRequestV {
                path: "/group/reset_invite_code"@,
                params: JsonV::Object(seq![("room_id"@, int_json(room_id))]),
                done: "邀请码已重置"@,
                failed: "群组操作失败"@,
            }
        }),
{
    let mut m: Vec<(String, Json)> = Vec::new();
    m.push(("room_id".to_string(), int_number(room_id)));
    assert(members_view(m@) =~= seq![("room_id"@, int_json(room_id))]);
    if disband {
        request("/group/disband", object(m), "群组已提交解散", "群组操作失败")
    } else {
        request("/group/reset_invite_code", object(m), "邀请码已重置", "群组操作失败")
    }
}

/// The view of a borrowed JSON value, if any.
pub open spec fn opt_ref_view(o: Option<&Json>) -> Option<JsonV> {
    match o {
        Some(j) => Some(j@),
        None => None,
    }
}

/// An answer that arrived and reports success.
pub open spec fn answered_ok(a: Result<Json, String>) -> bool {
    a is Ok && spec_is_success(a->Ok_0@)
}

/// What the group management page holds once its three answers arrived:
/// the `room` of the group's information (read into the room by the
/// caller), the `members` list, the three lists of applications
/// (`applications`, `applies`, `requests`, joined in that order by the
/// caller), why the applications could not be loaded, and the user's
/// standing in the group.
pub struct GroupManageLoad<'a> {
    pub room: Option<&'a Json>,
    pub members: Option<&'a Json>,
    pub applications: (Option<&'a Json>, Option<&'a Json>, Option<&'a Json>),
    pub application_error: Option<String>,
    pub is_in_group: bool,
    pub is_owner: bool,
    pub is_admin: bool,
    pub can_view_invite: bool,
}

/// A flag of the group's information: `true` only when it is the JSON
/// value `true`.
pub open spec fn info_flag(info: JsonV, key: Seq<char>) -> bool {
    json_as_bool(json_get(info, key)) == Some(true)
}

fn info_flag_exec(info: &Json, key: &str) -> (r: bool)
    ensures
        r == info_flag(info@, key@),
{
    match get(info, key) {
        Some(Json::Bool(b)) => *b,
        _ => false,
    }
}

/// What loading the group management page leads to. When the group's
/// information did not arrive, or does not report success, the page is
/// not shown and the status is the error, or the answer's message with
/// `群组资料加载失败` as fallback. Otherwise the page holds the room, the
/// members when their answer reports success (none otherwise), the lists
/// of applications when their answer reports success, or else no lists and
/// the error, or the answer's message with `入群申请列表加载失败。` as
/// fallback, and the four flags of the information; the status is then
/// cleared.
pub fn group_manage_load<'a>(
    info: &'a Result<Json, String>,
    members: &'a Result<Json, String>,
    applications: &'a Result<Json, String>,
) -> (r: Result<GroupManageLoad<'a>, String>)
    ensures
        match info {
            Err(e) => r matches Err(x) && x@ == e@,
            Ok(d) => if !spec_is_success(d@) {
                r matches Err(x) && x@ == spec_message_of(d@, "群组资料加载失败"@)
            } else {
                r matches Ok(p) && {
                    &&& opt_ref_view(p.room) == json_get(d@, "room"@)
                    &&& opt_ref_view(p.members) == (if answered_ok(*members) {
                        json_get(members->Ok_0@, "members"@)
                    } else {
                        None
                    })
                    &&& if answered_ok(*applications) {
                        let a = applications->Ok_0@;
                        &&& opt_ref_view(p.applications.0) == json_get(a, "applications"@)
                        &&& opt_ref_view(p.applications.1) == json_get(a, "applies"@)
                        &&& opt_ref_view(p.applications.2) == json_get(a, "requests"@)
                        &&& p.application_error is None
                    } else {
                        &&& p.applications.0 is None
                        &&& p.applications.1 is None
                        &&& p.applications.2 is None
                        &&& p.application_error matches Some(m) && m@ == (match applications {
                            Ok(a) => spec_message_of(a@, "入群申请列表加载失败。"@),
                            Err(e) => e@,
                        })
                    }
                    &&& p.is_in_group == info_flag(d@, "is_in_group"@)
                    &&& p.is_owner == info_flag(d@, "is_owner"@)
                    &&& p.is_admin == info_flag(d@, "is_admin"@)
                    &&& p.can_view_invite == info_flag(d@, "can_view_invite"@)
                }
            },
        },
{
    let d = match info {
        Err(e) => return Err(e.clone()),
        Ok(d) => d,
    };
    if !is_success(d) {
        return Err(message_of(d, "群组资料加载失败"));
    }
    let member_list = match members {
        Ok(m) => if is_success(m) {
            get(m, "members")
        } else {
            None
        },
        Err(_) => None,
    };
    let (lists, application_error) = match applications {
        Ok(a) => if is_success(a) {
            ((get(a, "applications"), get(a, "applies"), get(a, "requests")), None)
        } else {
            ((None, None, None), Some(message_of(a, "入群申请列表加载失败。")))
        },
        Err(e) => ((None, None, None), Some(e.clone())),
    };
    Ok(
        GroupManageLoad {
            room: get(d, "room"),
            members: member_list,
            applications: lists,
            application_error,
            is_in_group: info_flag_exec(d, "is_in_group"),
            is_owner: info_flag_exec(d, "is_owner"),
            is_admin: info_flag_exec(d, "is_admin"),
            can_view_invite: info_flag_exec(d, "can_view_invite"),
        },
    )
}

/// The applications to join a group, in one list: those under
/// `applications`, then `applies`, then `requests`.
pub fn join_application_lists<T>(applications: Vec<T>, applies: Vec<T>, requests: Vec<T>) -> (r:
    Vec<T>)
    ensures
        r@ == applications@ + applies@ + requests@,
{
    let mut all = applications;
    let mut more = applies;
    all.append(&mut more);
    let mut rest = requests;
    all.append(&mut rest);
    all
}

/// The JSON value of an answer that arrived; null for one that did not.
pub open spec fn answer_value(a: Result<Json, String>) -> JsonV {
    match a {
        Ok(d) => d@,
        Err(_) => JsonV::Null,
    }
}

fn answer_field<'a>(a: &'a Result<Json, String>, key: &str) -> (r: Option<&'a Json>)
    ensures
        opt_ref_view(r) == json_get(answer_value(*a), key@),
{
    match a {
        Ok(d) => get(d, key),
        Err(_) => None,
    }
}

/// What the home page is built from.
pub struct HomeDataParts<'a> {
    /// The signed-in user (read into a user by the caller, which reports
    /// `用户信息解析失败` when it cannot).
    pub user: Option<&'a Json>,
    /// The `friends` list, read by the caller.
    pub friends: Option<&'a Json>,
    /// The groups with a positive id under `groups`.
    pub groups: Vec<Group>,
    /// The friend `requests` list, read by the caller.
    pub requests: Option<&'a Json>,
    /// The `notices` of ended friendships, read by the caller.
    pub deleted: Option<&'a Json>,
    /// The integer `total_unread` of the notifications, 0 when there is
    /// none.
    pub total_unread: i64,
}

/// What loading the home page leads to: the error of the user's
/// information when it did not arrive; `请先登录` when it does not report
/// success; otherwise the parts of the page, each list taken from its
/// answer (none when the answer did not arrive), and the number of unread
/// notifications.
pub fn home_data_from<'a>(
    info: &'a Result<Json, String>,
    friends: &'a Result<Json, String>,
    groups: &'a Result<Json, String>,
    notifications: &'a Result<Json, String>,
    requests: &'a Result<Json, String>,
    deleted: &'a Result<Json, String>,
) -> (r: Result<HomeDataParts<'a>, String>)
    ensures
        match info {
            Err(e) => r matches Err(x) && x@ == e@,
            Ok(d) => if !spec_is_success(d@) {
                r matches Err(x) && x@ == "请先登录"@
            } else {
                r matches Ok(p) && {
                    &&& opt_ref_view(p.user) == json_get(d@, "user"@)
                    &&& opt_ref_view(p.friends) == json_get(answer_value(*friends), "friends"@)
                    &&& groups_v(p.groups@) == spec_group_list_from_field(
                        answer_value(*groups),
                        "groups"@,
                    )
                    &&& opt_ref_view(p.requests) == json_get(answer_value(*requests), "requests"@)
                    &&& opt_ref_view(p.deleted) == json_get(answer_value(*deleted), "notices"@)
                    &&& p.total_unread == (match json_as_i64(
                        json_get(answer_value(*notifications), "total_unread"@),
                    ) {
                        Some(n) => n,
                        None => 0,
                    })
                }
            },
        },
{
    let d = match info {
        Err(e) => return Err(e.clone()),
        Ok(d) => d,
    };
    if !is_success(d) {
        return Err("请先登录".to_string());
    }
    let group_list = match groups {
        Ok(g) => group_list_from_field(g, "groups"),
        Err(_) => {
            let none = Json::Null;
            group_list_from_field(&none, "groups")
        },
    };
    let total_unread: i64 = match answer_field(notifications, "total_unread") {
        Some(Json::Number(n)) => match n.int {
            Some(v) => v,
            None => 0,
        },
        _ => 0,
    };
    Ok(
        HomeDataParts {
            user: get(d, "user"),
            friends: answer_field(friends, "friends"),
            groups: group_list,
            requests: answer_field(requests, "requests"),
            deleted: answer_field(deleted, "notices"),
            total_unread,
        },
    )
}

/// The profile to open: a positive user id, else `无效的用户 ID`.
pub fn user_detail_target(uid: i64) -> (r: Result<i64, String>)
    ensures
        uid > 0 ==> r == Ok::<i64, String>(uid),
        uid <= 0 ==> (r matches Err(e) && e@ == "无效的用户 ID"@),
{
    if uid <= 0 {
        Err("无效的用户 ID".to_string())
    } else {
        Ok(uid)
    }
}

/// The user of a profile answer: the error when it did not arrive; its
/// message with `用户资料加载失败` as fallback when it does not report
/// success; `用户资料响应缺少 user 字段` when it has no `user` (the caller
/// reads the user, reporting `用户资料解析失败` when it cannot).
pub fn user_detail_from(info: &Result<Json, String>) -> (r: Result<&Json, String>)
    ensures
        match info {
            Err(e) => r matches Err(x) && x@ == e@,
            Ok(d) => if !spec_is_success(d@) {
                r matches Err(x) && x@ == spec_message_of(d@, "用户资料加载失败"@)
            } else {
                match json_get(d@, "user"@) {
                    Some(u) => r matches Ok(x) && x@ == u,
                    None => r matches Err(x) && x@ == "用户资料响应缺少 user 字段"@,
                }
            },
        },
{
    let d = match info {
        Err(e) => return Err(e.clone()),
        Ok(d) => d,
    };
    if !is_success(d) {
        return Err(message_of(d, "用户资料加载失败"));
    }
    match get(d, "user") {
        Some(u) => Ok(u),
        None => Err("用户资料响应缺少 user 字段".to_string()),
    }
}

/// The groups a user created: those with a positive id under `groups`
/// when the answer arrived and reports success, none otherwise.
pub fn created_groups_from(answer: &Result<Json, String>) -> (r: Vec<Group>)
    ensures
        groups_v(r@) == (if answered_ok(*answer) {
            spec_group_list_from_field(answer->Ok_0@, "groups"@)
        } else {
            Seq::<GroupV>::empty()
        }),
{
    match answer {
        Ok(d) => if is_success(d) {
            group_list_from_field(d, "groups")
        } else {
            let r: Vec<Group> = Vec::new();
            assert(groups_v(r@) =~= Seq::<GroupV>::empty());
            r
        },
        Err(_) => {
            let r: Vec<Group> = Vec::new();
            assert(groups_v(r@) =~= Seq::<GroupV>::empty());
            r
        },
    }
}

/// The request that loads a chat's messages: the group's from
/// `/message/get_group_msg` by room, a private chat's from
/// `/message/get_private_msg` by friend from the start.
pub fn chat_request(kind: &str, target_id: i64) -> (r: (String, Json))
    ensures
        kind@ == "group"@ ==> r.0@ == "/message/get_group_msg"@ && r.1@ == JsonV::Object(
            seq![("room_id"@, int_json(target_id))],
        ),
        kind@ != "group"@ ==> r.0@ == "/message/get_private_msg"@ && r.1@ == JsonV::Object(
            seq![("friend_id"@, int_json(target_id)), ("last_id"@, int_json(0))],
        ),
{
    let mut m: Vec<(String, Json)> = Vec::new();
    if chars_eq(chars_of(kind).as_slice(), chars_of("group").as_slice()) {
        m.push(("room_id".to_string(), int_number(target_id)));
        assert(members_view(m@) =~= seq![("room_id"@, int_json(target_id))]);
        ("/message/get_group_msg".to_string(), object(m))
    } else {
        m.push(("friend_id".to_string(), int_number(target_id)));
        m.push(("last_id".to_string(), int_number(0)));
        assert(members_view(m@) =~= seq![
            ("friend_id"@, int_json(target_id)),
            ("last_id"@, int_json(0)),
        ]);
        ("/message/get_private_msg".to_string(), object(m))
    }
}

/// What a chat's answer leads to: on success its `messages` (read by the
/// caller; the status is cleared and the chat is marked read); otherwise
/// the status, the error or the answer's message with `消息加载失败` as
/// fallback.
pub fn chat_loaded(answer: &Result<Json, String>) -> (r: Result<Option<&Json>, String>)
    ensures
        match answer {
            Err(e) => r matches Err(x) && x@ == e@,
            Ok(d) => if spec_is_success(d@) {
                r matches Ok(m) && opt_ref_view(m) == json_get(d@, "messages"@)
            } else {
                r matches Err(x) && x@ == spec_message_of(d@, "消息加载失败"@)
            },
        },
{
    match answer {
        Err(e) => Err(e.clone()),
        Ok(d) => if is_success(d) {
            Ok(get(d, "messages"))
        } else {
            Err(message_of(d, "消息加载失败"))
        },
    }
}

/// The request that answers a friend request: posted to
/// `/friend/handle_request` with its id and the action.
pub fn handle_friend_request_request(id: i64, action: &str) -> (r: ActionRequest)
    ensures
        request_view(r) == (ActionRequestV {
            path: "/friend/handle_request"@,
            params: JsonV::Object(
                seq![("request_id"@, int_json(id)), ("action"@, JsonV::Str(action@))],
            ),
            done: "已处理好友请求"@,
            failed: "处理失败"@,
        }),
{
    let mut m: Vec<(String, Json)> = Vec::new();
    m.push(("request_id".to_string(), int_number(id)));
    m.push(("action".to_string(), Json::Str(action.to_string())));
    assert(members_view(m@) =~= seq![("request_id"@, int_json(id)), ("action"@, JsonV::Str(action@))]);
    request("/friend/handle_request", object(m), "已处理好友请求", "处理失败")
}

/// The request that asks a user to be friends: posted to
/// `/friend/send_request` with the user and a fixed greeting.
pub fn send_friend_request_request(uid: i64) -> (r: ActionRequest)
    ensures
        request_view(r) == (ActionRequestV {
            path: "/friend/send_request"@,
            params: JsonV::Object(
                seq![("to_uid"@, int_json(uid)), ("message"@, JsonV::Str("请求添加你为好友"@))],
            ),
            done: "好友请求已发送"@,
            failed: "好友请求发送失败"@,
        }),
{
    let mut m: Vec<(String, Json)> = Vec::new();
    m.push(("to_uid".to_string(), int_number(uid)));
    m.push(("message".to_string(), Json::Str("请求添加你为好友".to_string())));
    assert(members_view(m@) =~= seq![
        ("to_uid"@, int_json(uid)),
        ("message"@, JsonV::Str("请求添加你为好友"@)),
    ]);
    request("/friend/send_request", object(m), "好友请求已发送", "好友请求发送失败")
}

/// The request that restores a friendship: the parameters of
/// `recover_friend_payload`, posted to `/friend/recover_friend`.
pub fn recover_friend_request(friend_id: i64, direct: bool) -> (r: ActionRequest)
    ensures
        request_view(r) == (ActionRequestV {
            path: "/friend/recover_friend"@,
            params: JsonV::Object(
                crate::actions::spec_recover_friend_payload(friend_id, direct),
            ),
            done: "已提交恢复请求"@,
            failed: "恢复失败"@,
        }),
{
    request(
        "/friend/recover_friend",
        crate::actions::recover_friend_payload(friend_id, direct),
        "已提交恢复请求",
        "恢复失败",
    )
}

/// The page after the home data was loaded: the home page when it loaded
/// and the client is to switch to it, no change when it loaded otherwise,
/// and the sign-in page when it did not load.
pub fn page_after_home_load(loaded: bool, switch_to_home: bool) -> (r: Option<Page>)
    ensures
        loaded && switch_to_home ==> r matches Some(Page::Home),
        loaded && !switch_to_home ==> r is None,
        !loaded ==> r matches Some(Page::Login),
{
    if !loaded {
        Some(Page::Login)
    } else if switch_to_home {
        Some(Page::Home)
    } else {
        None
    }
}

/// What the client's root keeps: the page shown, whether a user is
/// signed in, and the status line.
pub struct AppState {
    pub page: Page,
    pub signed_in: bool,
    pub status: String,
}

/// What happens to the client's root.
pub enum AppEvent {
    /// The home data is being loaded; `true` to switch to the home page.
    Refresh(bool),
    /// The home data was loaded (`Ok`) or not (`Err` with the reason);
    /// `true` to switch to the home page.
    HomeLoaded(bool, Result<(), String>),
    /// The user signed out.
    LoggedOut,
    /// A user's profile is to be opened.
    OpenUserDetail(i64),
    /// A page without data of its own (account, about, a report) is opened.
    OpenPlain(Page),
}

/// The root's next state. Loading the home data switches a signed-in
/// user to the home page at once when asked (clearing the status); once
/// loaded the user is signed in, the home page shown when asked and the
/// status cleared; a failed load signs the user out to the sign-in page
/// with the reason as status. Signing out leads to the sign-in page with
/// `已退出登录`. A profile opens for a positive id; another id leaves the
/// page and sets `无效的用户 ID`. A plain page opens with the status cleared.
pub fn app_step(state: AppState, event: AppEvent) -> (r: AppState)
    ensures
        match event {
            AppEvent::Refresh(switch) => if switch && state.signed_in {
                r.page == Page::Home && r.signed_in && r.status@ == Seq::<char>::empty()
            } else {
                r == state
            },
            AppEvent::HomeLoaded(switch, Ok(())) => {
                &&& r.signed_in
                &&& r.status@ == Seq::<char>::empty()
                &&& r.page == (if switch {
                    Page::Home
                } else {
                    state.page
                })
            },
            AppEvent::HomeLoaded(_, Err(e)) => !r.signed_in && r.page == Page::Login && r.status@
                == e@,
            AppEvent::LoggedOut => !r.signed_in && r.page == Page::Login && r.status@
                == "已退出登录"@,
            AppEvent::OpenUserDetail(uid) => if uid > 0 {
                r.page == Page::UserDetail(uid) && r.signed_in == state.signed_in && r.status
                    == state.status
            } else {
                r.page == state.page && r.signed_in == state.signed_in && r.status@
                    == "无效的用户 ID"@
            },
            AppEvent::OpenPlain(p) => r.page == p && r.signed_in == state.signed_in && r.status@
                == Seq::<char>::empty(),
        },
{
    match event {
        AppEvent::Refresh(switch) => if switch && state.signed_in {
            AppState { page: Page::Home, signed_in: true, status: String::new() }
        } else {
            state
        },
        AppEvent::HomeLoaded(switch, Ok(())) => AppState {
            page: if switch {
                Page::Home
            } else {
                state.page
            },
            signed_in: true,
            status: String::new(),
        },
        AppEvent::HomeLoaded(_, Err(e)) => AppState { page: Page::Login, signed_in: false, status: e },
        AppEvent::LoggedOut => AppState {
            page: Page::Login,
            signed_in: false,
            status: "已退出登录".to_string(),
        },
        AppEvent::OpenUserDetail(uid) => match user_detail_target(uid) {
            Ok(id) => AppState { page: Page::UserDetail(id), signed_in: state.signed_in, status: state.status },
            Err(e) => AppState { page: state.page, signed_in: state.signed_in, status: e },
        },
        AppEvent::OpenPlain(p) => AppState { page: p, signed_in: state.signed_in, status: String::new() },
    }
}

} // verus!
