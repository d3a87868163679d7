//! The requests behind the actions of the client: what is checked before
//! sending, the parameters sent, and what opening a public group leads to.
use vstd::prelude::*;
use crate::frontend::{int_json, int_number, GroupSearchResult};
use crate::text::concat_chars;
use crate::ui::group_join_state_text;
use crate::json::{members_view, object, Json, JsonV};
use crate::text::{chars_eq, chars_of, string_of, trim, trim_chars, Trim};

verus! {

broadcast use vstd::string::group_string_axioms;

fn trimmed(s: &str) -> (r: String)
    ensures
        r@ == trim(s@),
{
    string_of(trim_chars(chars_of(s).as_slice(), Trim::Whitespace).as_slice())
}

fn is_blank(s: &str) -> (r: bool)
    ensures
        r == (trim(s@).len() == 0),
{
    trim_chars(chars_of(s).as_slice(), Trim::Whitespace).len() == 0
}

fn same(a: &str, b: &str) -> (r: bool)
    ensures
        r == (a@ == b@),
{
    chars_eq(chars_of(a).as_slice(), chars_of(b).as_slice())
}

/// The parameters of a request to join a group: the room; for an
/// invitation code rule (2 or 3) the trimmed code, which must not be blank
/// (`请输入邀请码`); for the question rule (4) the trimmed answer.
pub open spec fn spec_apply_join_payload(
    room_id: i64,
    join_type: i64,
    code: Seq<char>,
    answer: Seq<char>,
) -> Result<Seq<(Seq<char>, JsonV)>, Seq<char>> {
    let room = seq![("room_id"@, int_json(room_id))];
    if join_type == 2 || join_type == 3 {
        if trim(code).len() == 0 {
            Err("请输入邀请码"@)
        } else {
            Ok(room.push(("code"@, JsonV::Str(trim(code)))))
        }
    } else if join_type == 4 {
        Ok(room.push(("answer"@, JsonV::Str(trim(answer)))))
    } else {
        Ok(room)
    }
}

/// The parameters of a request to join a group, as
/// `spec_apply_join_payload` describes.
pub fn apply_join_payload(room_id: i64, join_type: i64, code: &str, answer: &str) -> (r: Result<
    Json,
    String,
>)
    ensures
        match spec_apply_join_payload(room_id, join_type, code@, answer@) {
            Ok(m) => r matches Ok(j) && j@ == JsonV::Object(m),
            Err(e) => r matches Err(x) && x@ == e,
        },
{
    let mut m: Vec<(String, Json)> = Vec::new();
    m.push(("room_id".to_string(), int_number(room_id)));
    let ghost room = members_view(m@);
    assert(room =~= seq![("room_id"@, int_json(room_id))]);
    if join_type == 2 || join_type == 3 {
        if is_blank(code) {
            return Err("请输入邀请码".to_string());
        }
        m.push(("code".to_string(), Json::Str(trimmed(code))));
        assert(members_view(m@) =~= room.push(("code"@, JsonV::Str(trim(code@)))));
    } else if join_type == 4 {
        m.push(("answer".to_string(), Json::Str(trimmed(answer))));
        assert(members_view(m@) =~= room.push(("answer"@, JsonV::Str(trim(answer@)))));
    }
    Ok(object(m))
}

/// The parameters of a change of a group's information: the room, the
/// field and the value as given. A blank new name is refused
/// (`群组名称不能为空`).
pub open spec fn spec_edit_group_info_payload(
    room_id: i64,
    action: Seq<char>,
    value: Seq<char>,
) -> Result<Seq<(Seq<char>, JsonV)>, Seq<char>> {
    if action == "name"@ && trim(value).len() == 0 {
        Err("群组名称不能为空"@)
    } else {
        Ok(
            seq![
                ("room_id"@, int_json(room_id)),
                ("action"@, JsonV::Str(action)),
                ("value"@, JsonV::Str(value)),
            ],
        )
    }
}

/// The parameters of a change of a group's information, as
/// `spec_edit_group_info_payload` describes.
pub fn edit_group_info_payload(room_id: i64, action: &str, value: &str) -> (r: Result<
    Json,
    String,
>)
    ensures
        match spec_edit_group_info_payload(room_id, action@, value@) {
            Ok(m) => r matches Ok(j) && j@ == JsonV::Object(m),
            Err(e) => r matches Err(x) && x@ == e,
        },
{
    if same(action, "name") && is_blank(value) {
        return Err("群组名称不能为空".to_string());
    }
    let mut m: Vec<(String, Json)> = Vec::new();
    m.push(("room_id".to_string(), int_number(room_id)));
    m.push(("action".to_string(), Json::Str(action.to_string())));
    m.push(("value".to_string(), Json::Str(value.to_string())));
    assert(members_view(m@) =~= seq![
        ("room_id"@, int_json(room_id)),
        ("action"@, JsonV::Str(action@)),
        ("value"@, JsonV::Str(value@)),
    ]);
    Ok(object(m))
}

/// `items` with the member `(key, trimmed text)` added when the text is
/// not blank.
pub open spec fn with_text(items: Seq<(Seq<char>, JsonV)>, key: Seq<char>, text: Seq<char>) -> Seq<
    (Seq<char>, JsonV),
> {
    if trim(text).len() == 0 {
        items
    } else {
        items.push((key, JsonV::Str(trim(text))))
    }
}

/// The parameters of a change of a group's settings: the room, the join
/// rule and the two switches, then each of the fixed code, the question
/// and the answer that is not blank, trimmed.
pub open spec fn spec_group_settings_payload(
    room_id: i64,
    join_type: i64,
    fixed_code: Seq<char>,
    question: Seq<char>,
    answer: Seq<char>,
    show_in_list: i64,
    allow_invite: i64,
) -> Seq<(Seq<char>, JsonV)> {
    let base = seq![
        ("room_id"@, int_json(room_id)),
        ("join_type"@, int_json(join_type)),
        ("show_in_list"@, int_json(show_in_list)),
        ("allow_invite"@, int_json(allow_invite)),
    ];
    with_text(with_text(with_text(base, "fixed_code"@, fixed_code), "question"@, question), "answer"@, answer)
}

fn push_text(m: &mut Vec<(String, Json)>, key: &str, text: &str)
    ensures
        members_view(final(m)@) == with_text(members_view(old(m)@), key@, text@),
{
    if !is_blank(text) {
        let ghost before = members_view(m@);
        m.push((key.to_string(), Json::Str(trimmed(text))));
        assert(members_view(m@) =~= before.push((key@, JsonV::Str(trim(text@)))));
    }
}

/// The parameters of a change of a group's settings, as
/// `spec_group_settings_payload` describes.
pub fn group_settings_payload(
    room_id: i64,
    join_type: i64,
    fixed_code: &str,
    question: &str,
    answer: &str,
    show_in_list: i64,
    allow_invite: i64,
) -> (r: Json)
    ensures
        r@ == JsonV::Object(
            spec_group_settings_payload(
                room_id,
                join_type,
                fixed_code@,
                question@,
                answer@,
                show_in_list,
                allow_invite,
            ),
        ),
{
    let mut m: Vec<(String, Json)> = Vec::new();
    m.push(("room_id".to_string(), int_number(room_id)));
    m.push(("join_type".to_string(), int_number(join_type)));
    m.push(("show_in_list".to_string(), int_number(show_in_list)));
    m.push(("allow_invite".to_string(), int_number(allow_invite)));
    assert(members_view(m@) =~= seq![
        ("room_id"@, int_json(room_id)),
        ("join_type"@, int_json(join_type)),
        ("show_in_list"@, int_json(show_in_list)),
        ("allow_invite"@, int_json(allow_invite)),
    ]);
    push_text(&mut m, "fixed_code", fixed_code);
    push_text(&mut m, "question", question);
    push_text(&mut m, "answer", answer);
    object(m)
}

/// The request for an action on a member: muting for 60 minutes and
/// unmuting go to `/group/mute_member`, removing to `/group/kick_member`;
/// any other action is refused (`未知成员操作`).
pub open spec fn spec_member_action_request(room_id: i64, target_uid: i64, action: Seq<char>) -> Result<
    (Seq<char>, Seq<(Seq<char>, JsonV)>),
    Seq<char>,
> {
    let who = seq![("room_id"@, int_json(room_id)), ("target_uid"@, int_json(target_uid))];
    if action == "mute"@ {
        Ok(
            (
                "/group/mute_member"@,
                who.push(("action"@, JsonV::Str("mute"@))).push(("minutes"@, int_json(60))),
            ),
        )
    } else if action == "unmute"@ {
        Ok(("/group/mute_member"@, who.push(("action"@, JsonV::Str("unmute"@)))))
    } else if action == "kick"@ {
        Ok(("/group/kick_member"@, who))
    } else {
        Err("未知成员操作"@)
    }
}

/// The path and parameters for an action on a member, as
/// `spec_member_action_request` describes.
pub fn member_action_request(room_id: i64, target_uid: i64, action: &str) -> (r: Result<
    (String, Json),
    String,
>)
    ensures
        match spec_member_action_request(room_id, target_uid, action@) {
            Ok((p, m)) => r matches Ok((x, j)) && x@ == p && j@ == JsonV::Object(m),
            Err(e) => r matches Err(x) && x@ == e,
        },
{
    let mut m: Vec<(String, Json)> = Vec::new();
    m.push(("room_id".to_string(), int_number(room_id)));
    m.push(("target_uid".to_string(), int_number(target_uid)));
    let ghost who = members_view(m@);
    assert(who =~= seq![("room_id"@, int_json(room_id)), ("target_uid"@, int_json(target_uid))]);
    if same(action, "mute") {
        m.push(("action".to_string(), Json::Str("mute".to_string())));
        m.push(("minutes".to_string(), int_number(60)));
        assert(members_view(m@) =~= who.push(("action"@, JsonV::Str("mute"@))).push(
            ("minutes"@, int_json(60)),
        ));
        Ok(("/group/mute_member".to_string(), object(m)))
    } else if same(action, "unmute") {
        m.push(("action".to_string(), Json::Str("unmute".to_string())));
        assert(members_view(m@) =~= who.push(("action"@, JsonV::Str("unmute"@))));
        Ok(("/group/mute_member".to_string(), object(m)))
    } else if same(action, "kick") {
        Ok(("/group/kick_member".to_string(), object(m)))
    } else {
        Err("未知成员操作".to_string())
    }
}

/// The parameters of a request to restore a friendship: directly, or
/// with a message to the friend.
pub open spec fn spec_recover_friend_payload(friend_id: i64, direct: bool) -> Seq<
    (Seq<char>, JsonV),
> {
    if direct {
        seq![("friend_id"@, int_json(friend_id)), ("direct"@, JsonV::Str("1"@))]
    } else {
        seq![("friend_id"@, int_json(friend_id)), ("message"@, JsonV::Str("希望恢复好友关系"@))]
    }
}

/// The parameters of a request to restore a friendship, as
/// `spec_recover_friend_payload` describes.
pub fn recover_friend_payload(friend_id: i64, direct: bool) -> (r: Json)
    ensures
        r@ == JsonV::Object(spec_recover_friend_payload(friend_id, direct)),
{
    let mut m: Vec<(String, Json)> = Vec::new();
    m.push(("friend_id".to_string(), int_number(friend_id)));
    if direct {
        m.push(("direct".to_string(), Json::Str("1".to_string())));
    } else {
        m.push(("message".to_string(), Json::Str("希望恢复好友关系".to_string())));
    }
    assert(members_view(m@) =~= spec_recover_friend_payload(friend_id, direct));
    object(m)
}

/// What opening a public group leads to.
pub enum DetailStep {
    /// A notice is shown.
    Notice(String),
    /// A request to join is sent at once.
    ApplyJoin,
}

/// The notice shown on opening a public group: that the user is in it,
/// that a request waits, or how to join; none when it can be joined
/// directly (rule 1), which is then done.
pub open spec fn spec_detail_notice(in_group: bool, has_apply: bool, join_type: i64, name: Seq<
    char,
>) -> Option<Seq<char>> {
    if in_group {
        Some("你已加入「"@ + name + "」，可在我的群组中进入聊天"@)
    } else if has_apply {
        Some("「"@ + name + "」的入群申请正在等待审核"@)
    } else if join_type == 1 {
        None
    } else {
        Some(
            "「"@ + name + "」"@ + (if join_type == 2 || join_type == 3 {
                "需要邀请码"@
            } else if join_type == 4 {
                "需要回答问题"@
            } else {
                "可申请加入"@
            }) + "，请在首页按群组 ID 搜索后填写验证信息"@,
        )
    }
}

fn cat3(a: &str, b: &str, c: &str) -> (r: String)
    ensures
        r@ == a@ + b@ + c@,
{
    let ab = concat_chars(chars_of(a).as_slice(), chars_of(b).as_slice());
    let abc = concat_chars(ab.as_slice(), chars_of(c).as_slice());
    string_of(abc.as_slice())
}

/// What opening the public group `group` leads to, as
/// `spec_detail_notice` describes.
pub fn public_group_detail_step(group: &GroupSearchResult) -> (r: DetailStep)
    ensures
        match spec_detail_notice(
            group.is_in_group,
            group.has_apply,
            group.join_type,
            group.room_name@,
        ) {
            Some(t) => r matches DetailStep::Notice(x) && x@ == t,
            None => r is ApplyJoin,
        },
{
    let name = group.room_name.as_str();
    if group.is_in_group {
        DetailStep::Notice(cat3("你已加入「", name, "」，可在我的群组中进入聊天"))
    } else if group.has_apply {
        DetailStep::Notice(cat3("「", name, "」的入群申请正在等待审核"))
    } else if group.join_type == 1 {
        DetailStep::ApplyJoin
    } else {
        let state = group_join_state_text(false, false, group.join_type);
        let head = cat3("「", name, "」");
        DetailStep::Notice(cat3(head.as_str(), state, "，请在首页按群组 ID 搜索后填写验证信息"))
    }
}

/// The Base64 data of a `data:` URL: what follows its first comma; a URL
/// without a comma is refused (`文件数据格式异常`).
pub open spec fn spec_data_url_payload(data_url: Seq<char>) -> Result<Seq<char>, Seq<char>> {
    match crate::text::split_once_char(data_url, ',') {
        Some((_, data)) => Ok(data),
        None => Err("文件数据格式异常"@),
    }
}

/// The Base64 data of a `data:` URL, as `spec_data_url_payload` describes.
pub fn data_url_payload(data_url: &str) -> (r: Result<String, String>)
    ensures
        match spec_data_url_payload(data_url@) {
            Ok(d) => r matches Ok(x) && x@ == d,
            Err(e) => r matches Err(x) && x@ == e,
        },
{
    match crate::text::split_once_chars(chars_of(data_url).as_slice(), ',') {
        Some((_, data)) => Ok(string_of(data.as_slice())),
        None => Err("文件数据格式异常".to_string()),
    }
}

} // verus!
