//! How the desktop client reads API answers: numbers, flags and texts of
//! loosely typed JSON, success, messages with the attempts made, and the
//! users and groups in answers.
use vstd::prelude::*;
use crate::json::{
    get, i64_string, int_text, json_as_bool, json_as_i64, json_as_str, json_get,
    parse_i64, spec_parse_i64, spec_value_to_bool, Json, JsonNumber, JsonV,
};
use crate::text::{chars_of, concat_chars, join, string_of, trim, trim_chars, Trim};

verus! {

broadcast use vstd::string::group_string_axioms;

/// The member of `v` under the first of `keys` that it has.
pub open spec fn first_present(v: JsonV, keys: Seq<Seq<char>>) -> Option<JsonV>
    decreases keys.len(),
{
    if keys.len() == 0 {
        None
    } else {
        match json_get(v, keys[0]) {
            Some(x) => Some(x),
            None => first_present(v, keys.drop_first()),
        }
    }
}

pub open spec fn key_views(keys: Seq<&str>) -> Seq<Seq<char>> {
    keys.map_values(|k: &str| k@)
}

/// The member of `v` under the first of `keys` that it has.
pub fn get_first<'a>(v: &'a Json, keys: &[&str]) -> (r: Option<&'a Json>)
    ensures
        match first_present(v@, key_views(keys@)) {
            Some(x) => r matches Some(y) && y@ == x,
            None => r is None,
        },
{
    let n = keys.len();
    let ghost ks = key_views(keys@);
    assert(ks.skip(0) =~= ks);
    for i in 0..n
        invariant
            n == keys@.len(),
            ks == key_views(keys@),
            first_present(v@, ks) == first_present(v@, ks.skip(i as int)),
    {
        assert(ks.skip(i as int)[0] == keys@[i as int]@);
        assert(ks.skip(i as int).drop_first() =~= ks.skip(i + 1));
        if let Some(x) = get(v, keys[i]) {
            return Some(x);
        }
    }
    assert(ks.skip(n as int) =~= Seq::<Seq<char>>::empty());
    None
}

/// A JSON value read as an integer by the client: an `i64` number, a text
/// that parses as it is, or a boolean as 1 or 0.
pub open spec fn spec_value_to_i64(v: JsonV) -> Option<i64> {
    match v {
        JsonV::Number(i, _) => i,
        JsonV::Str(s) => spec_parse_i64(s),
        JsonV::Bool(b) => Some(
            if b {
                1
            } else {
                0
            },
        ),
        _ => None,
    }
}

pub fn value_to_i64(v: &Json) -> (r: Option<i64>)
    ensures
        r == spec_value_to_i64(v@),
{
    match v {
        Json::Number(n) => n.int,
        Json::Str(s) => parse_i64(s.as_str()),
        Json::Bool(b) => Some(
            if *b {
                1
            } else {
                0
            },
        ),
        _ => None,
    }
}

/// A JSON value read as a flag, as the backend reads it.
pub fn value_to_bool(v: &Json) -> (r: Option<bool>)
    ensures
        r == spec_value_to_bool(v@),
{
    crate::json::value_to_bool(v)
}

/// A JSON value read as text: a text as it is, a number as its text, a
/// boolean as `1` or `0`; nothing for null, arrays and objects.
pub open spec fn spec_value_to_string(v: JsonV) -> Option<Seq<char>> {
    match v {
        JsonV::Str(s) => Some(s),
        JsonV::Number(_, t) => Some(t),
        JsonV::Bool(b) => Some(
            if b {
                "1"@
            } else {
                "0"@
            },
        ),
        _ => None,
    }
}

pub fn value_to_string(v: &Json) -> (r: Option<String>)
    ensures
        opt_v(r) == spec_value_to_string(v@),
{
    match v {
        Json::Str(s) => Some(s.clone()),
        Json::Number(n) => Some(n.text.clone()),
        Json::Bool(b) => Some(
            if *b {
                "1".to_string()
            } else {
                "0".to_string()
            },
        ),
        _ => None,
    }
}

pub open spec fn opt_v(o: Option<String>) -> Option<Seq<char>> {
    match o {
        Some(s) => Some(s@),
        None => None,
    }
}

/// `f` of the member under `key`, if any.
pub open spec fn int_at(v: JsonV, key: Seq<char>) -> Option<i64> {
    match json_get(v, key) {
        Some(x) => spec_value_to_i64(x),
        None => None,
    }
}

pub open spec fn flag_at(v: JsonV, key: Seq<char>) -> Option<bool> {
    match json_get(v, key) {
        Some(x) => spec_value_to_bool(x),
        None => None,
    }
}

pub open spec fn text_of(v: Option<JsonV>) -> Option<Seq<char>> {
    match v {
        Some(x) => spec_value_to_string(x),
        None => None,
    }
}

/// The first of `keys` whose member reads as an integer.
pub open spec fn first_int(v: JsonV, keys: Seq<Seq<char>>) -> Option<i64>
    decreases keys.len(),
{
    if keys.len() == 0 {
        None
    } else {
        match int_at(v, keys[0]) {
            Some(n) => Some(n),
            None => first_int(v, keys.drop_first()),
        }
    }
}

fn int_at_exec(v: &Json, key: &str) -> (r: Option<i64>)
    ensures
        r == int_at(v@, key@),
{
    match get(v, key) {
        Some(x) => value_to_i64(x),
        None => None,
    }
}

fn flag_at_exec(v: &Json, key: &str) -> (r: Option<bool>)
    ensures
        r == flag_at(v@, key@),
{
    match get(v, key) {
        Some(x) => value_to_bool(x),
        None => None,
    }
}

fn text_of_exec(v: Option<&Json>) -> (r: Option<String>)
    ensures
        opt_v(r) == text_of(match v {
            Some(x) => Some(x@),
            None => None,
        }),
{
    match v {
        Some(x) => value_to_string(x),
        None => None,
    }
}

fn first_int_exec(v: &Json, keys: &[&str]) -> (r: Option<i64>)
    ensures
        r == first_int(v@, key_views(keys@)),
{
    let n = keys.len();
    let ghost ks = key_views(keys@);
    assert(ks.skip(0) =~= ks);
    for i in 0..n
        invariant
            n == keys@.len(),
            ks == key_views(keys@),
            first_int(v@, ks) == first_int(v@, ks.skip(i as int)),
    {
        assert(ks.skip(i as int)[0] == keys@[i as int]@);
        assert(ks.skip(i as int).drop_first() =~= ks.skip(i + 1));
        if let Some(x) = int_at_exec(v, keys[i]) {
            return Some(x);
        }
    }
    assert(ks.skip(n as int) =~= Seq::<Seq<char>>::empty());
    None
}

/// Whether an answer reports success, as the client reads it: its
/// `success` flag, else its `ok` flag, else whether its `code` is 0 or 200.
pub open spec fn spec_is_success(data: JsonV) -> bool {
    if flag_at(data, "success"@) is Some {
        flag_at(data, "success"@)->0
    } else if flag_at(data, "ok"@) is Some {
        flag_at(data, "ok"@)->0
    } else {
        match int_at(data, "code"@) {
            Some(code) => code == 0 || code == 200,
            None => false,
        }
    }
}

pub fn is_success(data: &Json) -> (r: bool)
    ensures
        r == spec_is_success(data@),
{
    if let Some(b) = flag_at_exec(data, "success") {
        return b;
    }
    if let Some(b) = flag_at_exec(data, "ok") {
        return b;
    }
    if let Some(code) = int_at_exec(data, "code") {
        return code == 0 || code == 200;
    }
    false
}

/// The last three attempts, newest first.
pub open spec fn recent_attempts(items: Seq<JsonV>) -> Seq<JsonV> {
    let n = items.len();
    let k = if n < 3 {
        n as int
    } else {
        3
    };
    Seq::new(k as nat, |j: int| items[n - 1 - j])
}

/// One attempt as a line `status endpoint: message`; none without an
/// endpoint text.
pub open spec fn attempt_line(a: JsonV) -> Option<Seq<char>> {
    match json_as_str(json_get(a, "endpoint"@)) {
        Some(ep) => {
            let status = match json_as_i64(json_get(a, "status"@)) {
                Some(x) => x,
                None => 0,
            };
            let msg = match json_as_str(json_get(a, "message"@)) {
                Some(m) => m,
                None => "请求失败"@,
            };
            Some(int_text(status as int) + " "@ + ep + ": "@ + msg)
        },
        None => None,
    }
}

/// The lines of those attempts that have one.
pub open spec fn attempt_lines(items: Seq<JsonV>) -> Seq<Seq<char>>
    decreases items.len(),
{
    if items.len() == 0 {
        Seq::empty()
    } else {
        let p = attempt_lines(items.drop_last());
        match attempt_line(items.last()) {
            Some(l) => p.push(l),
            None => p,
        }
    }
}

/// The message of an answer (or `fallback` when it has no non-blank one),
/// followed by the last three attempts when there are any to show.
pub open spec fn spec_message_of(data: JsonV, fallback: Seq<char>) -> Seq<char> {
    let message = match json_as_str(json_get(data, "message"@)) {
        Some(m) => if trim(m).len() > 0 {
            m
        } else {
            fallback
        },
        None => fallback,
    };
    match json_get(data, "attempts"@) {
        Some(JsonV::Array(items)) => {
            let detail = join(attempt_lines(recent_attempts(items)), " | "@);
            if detail.len() == 0 {
                message
            } else {
                message + "。尝试过："@ + detail
            }
        },
        _ => message,
    }
}

fn cat(a: &str, b: &str) -> (r: String)
    ensures
        r@ == a@ + b@,
{
    string_of(concat_chars(chars_of(a).as_slice(), chars_of(b).as_slice()).as_slice())
}

fn attempt_line_exec(a: &Json) -> (r: Option<String>)
    ensures
        opt_v(r) == attempt_line(a@),
{
    let ep = match get(a, "endpoint") {
        Some(Json::Str(e)) => e,
        _ => return None,
    };
    let status: i64 = match get(a, "status") {
        Some(Json::Number(x)) => match x.int {
            Some(i) => i,
            None => 0,
        },
        _ => 0,
    };
    let msg = match get(a, "message") {
        Some(Json::Str(m)) => m.clone(),
        _ => "请求失败".to_string(),
    };
    let s1 = cat(i64_string(status).as_str(), " ");
    let s2 = cat(s1.as_str(), ep.as_str());
    let s3 = cat(s2.as_str(), ": ");
    Some(cat(s3.as_str(), msg.as_str()))
}

pub fn message_of(data: &Json, fallback: &str) -> (r: String)
    ensures
        r@ == spec_message_of(data@, fallback@),
{
    let message = match get(data, "message") {
        Some(Json::Str(m)) => if trim_chars(chars_of(m.as_str()).as_slice(), Trim::Whitespace).len()
            > 0 {
            m.clone()
        } else {
            fallback.to_string()
        },
        _ => fallback.to_string(),
    };
    let items = match get(data, "attempts") {
        Some(Json::Array(items)) => items,
        _ => return message,
    };
    let ghost iv = match json_get(data@, "attempts"@) {
        Some(JsonV::Array(x)) => x,
        _ => Seq::empty(),
    };
    assert(iv =~= crate::json::json_views(items@)) by {
        assert(iv.len() == items@.len());
    }
    let n = items.len();
    let k: usize = if n < 3 {
        n
    } else {
        3
    };
    let ghost recent = recent_attempts(iv);
    let mut lines: Vec<Vec<char>> = Vec::new();
    for j in 0..k
        invariant
            n == items@.len(),
            k == recent.len(),
            k <= n,
            recent == recent_attempts(iv),
            iv == crate::json::json_views(items@),
            crate::text::views(lines@) == attempt_lines(recent.take(j as int)),
    {
        assert(recent.take(j + 1).drop_last() =~= recent.take(j as int));
        assert(recent[j as int] == items@[n - 1 - j]@);
        if let Some(line) = attempt_line_exec(&items[n - 1 - j]) {
            let ghost before = crate::text::views(lines@);
            lines.push(chars_of(line.as_str()));
            assert(crate::text::views(lines@) =~= before.push(line@));
        }
    }
    assert(recent.take(k as int) =~= recent);
    let detail = crate::text::join_chars(&lines, chars_of(" | ").as_slice());
    if detail.len() == 0 {
        message
    } else {
        let m = cat(message.as_str(), "。尝试过：");
        string_of(concat_chars(chars_of(m.as_str()).as_slice(), detail.as_slice()).as_slice())
    }
}

/// What to say when no public group was listed: the answer's message (a
/// fallback depending on whether it reported success), and the endpoint it
/// came from when that is not blank.
pub open spec fn spec_public_group_empty_message(data: JsonV) -> Seq<char> {
    let base = if spec_is_success(data) {
        "公开群组接口返回成功，但列表为空"@
    } else {
        "没有读取到公开群组"@
    };
    let message = spec_message_of(data, base);
    match json_as_str(json_get(data, "endpoint"@)) {
        Some(e) => if trim(e).len() > 0 {
            message + "。最终来源："@ + e
        } else {
            message
        },
        None => message,
    }
}

pub fn public_group_empty_message(data: &Json) -> (r: String)
    ensures
        r@ == spec_public_group_empty_message(data@),
{
    let base = if is_success(data) {
        "公开群组接口返回成功，但列表为空"
    } else {
        "没有读取到公开群组"
    };
    let message = message_of(data, base);
    match get(data, "endpoint") {
        Some(Json::Str(e)) => if trim_chars(chars_of(e.as_str()).as_slice(), Trim::Whitespace).len()
            > 0 {
            let m = cat(message.as_str(), "。最终来源：");
            cat(m.as_str(), e.as_str())
        } else {
            message
        },
        _ => message,
    }
}

/// A user found by a search.
pub struct UserSearchResult {
    pub uid: i64,
    pub username: String,
    pub nickname: String,
    pub avatar: Option<String>,
    pub is_friend: bool,
    pub request_sent: bool,
    pub request_received: bool,
    pub can_add_friend: bool,
}

pub struct UserSearchV {
    pub uid: i64,
    pub username: Seq<char>,
    pub nickname: Seq<char>,
    pub avatar: Option<Seq<char>>,
    pub is_friend: bool,
    pub request_sent: bool,
    pub request_received: bool,
    pub can_add_friend: bool,
}

pub open spec fn user_search_v(u: UserSearchResult) -> UserSearchV {
    UserSearchV {
        uid: u.uid,
        username: u.username@,
        nickname: u.nickname@,
        avatar: opt_v(u.avatar),
        is_friend: u.is_friend,
        request_sent: u.request_sent,
        request_received: u.request_received,
        can_add_friend: u.can_add_friend,
    }
}

pub open spec fn bool_at(v: JsonV, key: Seq<char>) -> bool {
    json_as_bool(json_get(v, key)) == Some(true)
}

/// The user of a search answer (its `user` member), read strictly: the id
/// an `i64` number (else 0), names texts (`未命名用户` for a missing
/// nickname), flags booleans (else false).
pub open spec fn spec_user_search_result(data: JsonV) -> Option<UserSearchV> {
    match json_get(data, "user"@) {
        None => None,
        Some(u) => Some(
            UserSearchV {
                uid: match json_as_i64(json_get(u, "uid"@)) {
                    Some(x) => x,
                    None => 0,
                },
                username: match json_as_str(json_get(u, "username"@)) {
                    Some(x) => x,
                    None => Seq::empty(),
                },
                nickname: match json_as_str(json_get(u, "nickname"@)) {
                    Some(x) => x,
                    None => "未命名用户"@,
                },
                avatar: json_as_str(json_get(u, "avatar"@)),
                is_friend: bool_at(u, "is_friend"@),
                request_sent: bool_at(u, "friend_request_sent"@),
                request_received: bool_at(u, "friend_request_received"@),
                can_add_friend: bool_at(u, "can_add_friend"@),
            },
        ),
    }
}

fn str_at(v: &Json, key: &str) -> (r: Option<String>)
    ensures
        opt_v(r) == json_as_str(json_get(v@, key@)),
{
    match get(v, key) {
        Some(Json::Str(s)) => Some(s.clone()),
        _ => None,
    }
}

fn bool_at_exec(v: &Json, key: &str) -> (r: bool)
    ensures
        r == bool_at(v@, key@),
{
    match get(v, key) {
        Some(Json::Bool(b)) => *b,
        _ => false,
    }
}

pub fn user_search_result(data: &Json) -> (r: Option<UserSearchResult>)
    ensures
        match spec_user_search_result(data@) {
            Some(u) => r matches Some(x) && user_search_v(x) == u,
            None => r is None,
        },
{
    let user = match get(data, "user") {
        Some(u) => u,
        None => return None,
    };
    let uid: i64 = match get(user, "uid") {
        Some(Json::Number(x)) => match x.int {
            Some(i) => i,
            None => 0,
        },
        _ => 0,
    };
    let username = match str_at(user, "username") {
        Some(x) => x,
        None => String::new(),
    };
    let nickname = match str_at(user, "nickname") {
        Some(x) => x,
        None => "未命名用户".to_string(),
    };
    Some(
        UserSearchResult {
            uid,
            username,
            nickname,
            avatar: str_at(user, "avatar"),
            is_friend: bool_at_exec(user, "is_friend"),
            request_sent: bool_at_exec(user, "friend_request_sent"),
            request_received: bool_at_exec(user, "friend_request_received"),
            can_add_friend: bool_at_exec(user, "can_add_friend"),
        },
    )
}

/// Where the user stands with a searched user.
pub fn friend_state_text(user: &UserSearchResult) -> (r: &'static str)
    ensures
        r@ == (if user.is_friend {
            "已经是好友，可在好友列表进入私聊"@
        } else if user.request_sent {
            "好友请求已发送，等待对方确认"@
        } else if user.request_received {
            "对方已发来好友请求，请在好友通知中处理"@
        } else if user.can_add_friend {
            "可以发送好友请求"@
        } else {
            "暂时无法添加"@
        }),
{
    if user.is_friend {
        "已经是好友，可在好友列表进入私聊"
    } else if user.request_sent {
        "好友请求已发送，等待对方确认"
    } else if user.request_received {
        "对方已发来好友请求，请在好友通知中处理"
    } else if user.can_add_friend {
        "可以发送好友请求"
    } else {
        "暂时无法添加"
    }
}

/// A user's profile.
pub struct UserProfile {
    pub uid: i64,
    pub username: Option<String>,
    pub nickname: Option<String>,
    pub avatar: Option<String>,
    pub remark: Option<String>,
    pub online_status: Option<String>,
    pub is_self: bool,
    pub is_friend: bool,
    pub request_sent: bool,
    pub request_received: bool,
    pub is_blocked: bool,
    pub can_add_friend: bool,
}

/// Where the user stands with a profile's owner.
pub fn user_profile_state_text(user: &UserProfile) -> (r: &'static str)
    ensures
        r@ == (if user.is_self {
            "这是你自己的账号"@
        } else if user.is_friend {
            "已经是好友"@
        } else if user.request_sent {
            "好友请求已发送"@
        } else if user.request_received {
            "对方已发来好友请求"@
        } else if user.is_blocked {
            "当前无法添加"@
        } else if user.can_add_friend {
            "可以发送好友请求"@
        } else {
            "暂时无法添加"@
        }),
{
    if user.is_self {
        "这是你自己的账号"
    } else if user.is_friend {
        "已经是好友"
    } else if user.request_sent {
        "好友请求已发送"
    } else if user.request_received {
        "对方已发来好友请求"
    } else if user.is_blocked {
        "当前无法添加"
    } else if user.can_add_friend {
        "可以发送好友请求"
    } else {
        "暂时无法添加"
    }
}

/// A group as a list shows it.
pub struct Group {
    pub room_id: i64,
    pub room_name: Option<String>,
    pub intro: Option<String>,
    pub unread_count: Option<i64>,
    pub join_type: i64,
    pub owner_name: Option<String>,
    pub member_count: Option<i64>,
    pub is_in_group: bool,
    pub has_apply: bool,
}

pub struct GroupV {
    pub room_id: i64,
    pub room_name: Option<Seq<char>>,
    pub intro: Option<Seq<char>>,
    pub unread_count: Option<i64>,
    pub join_type: i64,
    pub owner_name: Option<Seq<char>>,
    pub member_count: Option<i64>,
    pub is_in_group: bool,
    pub has_apply: bool,
}

pub open spec fn group_v(g: Group) -> GroupV {
    GroupV {
        room_id: g.room_id,
        room_name: opt_v(g.room_name),
        intro: opt_v(g.intro),
        unread_count: g.unread_count,
        join_type: g.join_type,
        owner_name: opt_v(g.owner_name),
        member_count: g.member_count,
        is_in_group: g.is_in_group,
        has_apply: g.has_apply,
    }
}

/// A group in a list answer: its id is the first of `room_id`, `id`,
/// `rid`, `group_id`, `roomId` that reads as an integer (no group without
/// one); its join rule when positive (else 1); its name from the first of
/// `room_name`, `name`, `title` present, when not blank; its intro from the
/// first of `intro`, `description`, `desc` present; counts, owner and flags
/// as they read.
pub open spec fn spec_group_from_value(v: JsonV) -> Option<GroupV> {
    match first_int(v, seq!["room_id"@, "id"@, "rid"@, "group_id"@, "roomId"@]) {
        None => None,
        Some(room_id) => Some(
            GroupV {
                room_id,
                room_name: match text_of(first_present(v, seq!["room_name"@, "name"@, "title"@])) {
                    Some(n) => if trim(n).len() > 0 {
                        Some(n)
                    } else {
                        None
                    },
                    None => None,
                },
                intro: text_of(first_present(v, seq!["intro"@, "description"@, "desc"@])),
                unread_count: int_at(v, "unread_count"@),
                join_type: match int_at(v, "join_type"@) {
                    Some(j) => if j > 0 {
                        j
                    } else {
                        1
                    },
                    None => 1,
                },
                owner_name: text_of(json_get(v, "owner_name"@)),
                member_count: int_at(v, "member_count"@),
                is_in_group: flag_at(v, "is_in_group"@) == Some(true),
                has_apply: flag_at(v, "has_apply"@) == Some(true),
            },
        ),
    }
}

/// A group item with an integer `room_id` gives a group with that id; and
/// the group read from an item keeps the item's integer `unread_count`,
/// `member_count` and a string `intro`.
pub proof fn law_group_from_value_keeps_fields(v: JsonV)
    ensures
        json_get(v, "room_id"@) matches Some(JsonV::Number(Some(id), _)) ==> spec_group_from_value(v)
            matches Some(g) && g.room_id == id,
        spec_group_from_value(v) is Some ==> (json_get(v, "unread_count"@) matches Some(
            JsonV::Number(Some(n), _),
        ) ==> spec_group_from_value(v)->0.unread_count == Some(n)),
        spec_group_from_value(v) is Some ==> (json_get(v, "member_count"@) matches Some(
            JsonV::Number(Some(n), _),
        ) ==> spec_group_from_value(v)->0.member_count == Some(n)),
        spec_group_from_value(v) is Some ==> (json_get(v, "intro"@) matches Some(JsonV::Str(t))
            ==> spec_group_from_value(v)->0.intro == Some(t)),
{
    reveal_with_fuel(first_int, 2);
    reveal_with_fuel(first_present, 2);
    let keys = seq!["room_id"@, "id"@, "rid"@, "group_id"@, "roomId"@];
    assert(keys[0] == "room_id"@);
    let ik = seq!["intro"@, "description"@, "desc"@];
    assert(ik[0] == "intro"@);
}

/// The rest of what a group item says is kept: a non-blank string
/// `room_name`, a positive integer `join_type` (1 when it is missing), a
/// string `owner_name`, and the `true`/`false` flags; an item without any
/// id gives no group.
pub proof fn law_group_from_value_details(v: JsonV)
    ensures
        spec_group_from_value(v) is Some ==> (json_get(v, "room_name"@) matches Some(JsonV::Str(t))
            ==> spec_group_from_value(v)->0.room_name == (if trim(t).len() > 0 {
            Some(t)
        } else {
            None
        })),
        spec_group_from_value(v) is Some ==> (json_get(v, "join_type"@) matches Some(
            JsonV::Number(Some(j), _),
        ) ==> spec_group_from_value(v)->0.join_type == (if j > 0 {
            j
        } else {
            1
        })),
        (spec_group_from_value(v) is Some && json_get(v, "join_type"@) is None)
            ==> spec_group_from_value(v)->0.join_type == 1,
        spec_group_from_value(v) is Some ==> (json_get(v, "owner_name"@) matches Some(JsonV::Str(t))
            ==> spec_group_from_value(v)->0.owner_name == Some(t)),
        spec_group_from_value(v) is Some ==> (json_get(v, "is_in_group"@) matches Some(
            JsonV::Bool(b),
        ) ==> spec_group_from_value(v)->0.is_in_group == b),
        spec_group_from_value(v) is Some ==> (json_get(v, "has_apply"@) matches Some(JsonV::Bool(b))
            ==> spec_group_from_value(v)->0.has_apply == b),
        (json_get(v, "room_id"@) is None && json_get(v, "id"@) is None && json_get(v, "rid"@) is None
            && json_get(v, "group_id"@) is None && json_get(v, "roomId"@) is None)
            ==> spec_group_from_value(v) is None,
{
    reveal_with_fuel(first_int, 6);
    reveal_with_fuel(first_present, 2);
    let keys = seq!["room_id"@, "id"@, "rid"@, "group_id"@, "roomId"@];
    assert(keys.drop_first() =~= seq!["id"@, "rid"@, "group_id"@, "roomId"@]);
    assert(keys.drop_first().drop_first() =~= seq!["rid"@, "group_id"@, "roomId"@]);
    assert(keys.drop_first().drop_first().drop_first() =~= seq!["group_id"@, "roomId"@]);
    assert(keys.drop_first().drop_first().drop_first().drop_first() =~= seq!["roomId"@]);
    assert(keys.drop_first().drop_first().drop_first().drop_first().drop_first() =~= Seq::<
        Seq<char>,
    >::empty());
    let nk = seq!["room_name"@, "name"@, "title"@];
    assert(nk[0] == "room_name"@);
}

pub fn group_from_value(value: &Json) -> (r: Option<Group>)
    ensures
        match spec_group_from_value(value@) {
            Some(g) => r matches Some(x) && group_v(x) == g,
            None => r is None,
        },
{
    let id_keys = ["room_id", "id", "rid", "group_id", "roomId"];
    assert(key_views(id_keys@) =~= seq!["room_id"@, "id"@, "rid"@, "group_id"@, "roomId"@]);
    let room_id = match first_int_exec(value, &id_keys) {
        Some(x) => x,
        None => return None,
    };
    let join_type: i64 = match int_at_exec(value, "join_type") {
        Some(j) => if j > 0 {
            j
        } else {
            1
        },
        None => 1,
    };
    let name_keys = ["room_name", "name", "title"];
    assert(key_views(name_keys@) =~= seq!["room_name"@, "name"@, "title"@]);
    let room_name = match text_of_exec(get_first(value, &name_keys)) {
        Some(n) => if trim_chars(chars_of(n.as_str()).as_slice(), Trim::Whitespace).len() > 0 {
            Some(n)
        } else {
            None
        },
        None => None,
    };
    let intro_keys = ["intro", "description", "desc"];
    assert(key_views(intro_keys@) =~= seq!["intro"@, "description"@, "desc"@]);
    let intro = text_of_exec(get_first(value, &intro_keys));
    let owner_name = text_of_exec(get(value, "owner_name"));
    Some(
        Group {
            room_id,
            room_name,
            intro,
            unread_count: int_at_exec(value, "unread_count"),
            join_type,
            owner_name,
            member_count: int_at_exec(value, "member_count"),
            is_in_group: flag_at_exec(value, "is_in_group") == Some(true),
            has_apply: flag_at_exec(value, "has_apply") == Some(true),
        },
    )
}

pub open spec fn groups_v(gs: Seq<Group>) -> Seq<GroupV> {
    gs.map_values(|g: Group| group_v(g))
}

/// The groups that the items give, in order.
pub open spec fn groups_of(items: Seq<JsonV>) -> Seq<GroupV>
    decreases items.len(),
{
    if items.len() == 0 {
        Seq::empty()
    } else {
        let p = groups_of(items.drop_last());
        match spec_group_from_value(items.last()) {
            Some(g) => p.push(g),
            None => p,
        }
    }
}

/// An array read as groups; `None` for a value that is not an array.
pub open spec fn spec_parse_group_vec(v: JsonV) -> Option<Seq<GroupV>> {
    match v {
        JsonV::Array(items) => Some(groups_of(items)),
        _ => None,
    }
}

pub fn parse_group_vec(value: &Json) -> (r: Option<Vec<Group>>)
    ensures
        match spec_parse_group_vec(value@) {
            Some(gs) => r matches Some(x) && groups_v(x@) == gs,
            None => r is None,
        },
{
    let items = match value {
        Json::Array(items) => items,
        _ => return None,
    };
    let ghost iv = match value@ {
        JsonV::Array(x) => x,
        _ => Seq::empty(),
    };
    assert(iv =~= crate::json::json_views(items@)) by {
        assert(iv.len() == items@.len());
    }
    let mut out: Vec<Group> = Vec::new();
    let n = items.len();
    for i in 0..n
        invariant
            n == items@.len(),
            iv == crate::json::json_views(items@),
            groups_v(out@) == groups_of(iv.take(i as int)),
    {
        assert(iv.take(i + 1).drop_last() =~= iv.take(i as int));
        assert(iv[i as int] == items@[i as int]@);
        if let Some(g) = group_from_value(&items[i]) {
            let ghost before = groups_v(out@);
            out.push(g);
            assert(groups_v(out@) =~= before.push(group_v(g)));
        }
    }
    assert(iv.take(n as int) =~= iv);
    Some(out)
}

/// The groups with a positive id.
pub open spec fn positive_groups(gs: Seq<GroupV>) -> Seq<GroupV>
    decreases gs.len(),
{
    if gs.len() == 0 {
        gs
    } else {
        let p = positive_groups(gs.drop_last());
        if gs.last().room_id > 0 {
            p.push(gs.last())
        } else {
            p
        }
    }
}

fn keep_positive(gs: Vec<Group>) -> (r: Vec<Group>)
    ensures
        groups_v(r@) == positive_groups(groups_v(gs@)),
{
    let mut out: Vec<Group> = Vec::new();
    let ghost all = groups_v(gs@);
    let ghost orig = gs@;
    let mut rest = gs;
    let n = rest.len();
    let mut i: usize = 0;
    assert(orig.skip(0) =~= orig);
    while i < n
        invariant
            n == orig.len(),
            all == groups_v(orig),
            i <= n,
            rest@ == orig.skip(i as int),
            groups_v(out@) == positive_groups(all.take(i as int)),
        decreases n - i,
    {
        let g = rest.remove(0);
        assert(g == orig[i as int]);
        assert(rest@ =~= orig.skip(i + 1));
        assert(all.take(i + 1).drop_last() =~= all.take(i as int));
        if g.room_id > 0 {
            let ghost before = groups_v(out@);
            out.push(g);
            assert(groups_v(out@) =~= before.push(group_v(g)));
        }
        i = i + 1;
    }
    assert(all.take(n as int) =~= all);
    out
}

/// The groups under `field` of an answer, those with a positive id.
pub open spec fn spec_group_list_from_field(data: JsonV, field: Seq<char>) -> Seq<GroupV> {
    match json_get(data, field) {
        Some(v) => match spec_parse_group_vec(v) {
            Some(gs) => positive_groups(gs),
            None => Seq::empty(),
        },
        None => Seq::empty(),
    }
}

pub fn group_list_from_field(data: &Json, field: &str) -> (r: Vec<Group>)
    ensures
        groups_v(r@) == spec_group_list_from_field(data@, field@),
{
    let gs = match get(data, field) {
        Some(v) => match parse_group_vec(v) {
            Some(gs) => gs,
            None => Vec::new(),
        },
        None => Vec::new(),
    };
    proof {
        if !(json_get(data@, field@) matches Some(v) && spec_parse_group_vec(v) is Some) {
            assert(groups_v(gs@) =~= Seq::<GroupV>::empty());
        }
    }
    keep_positive(gs)
}

/// The value reached from `v` through the keys of `path`.
pub open spec fn spec_value_at_path(v: JsonV, path: Seq<Seq<char>>) -> Option<JsonV>
    decreases path.len(),
{
    if path.len() == 0 {
        Some(v)
    } else {
        match json_get(v, path[0]) {
            Some(x) => spec_value_at_path(x, path.drop_first()),
            None => None,
        }
    }
}

pub fn value_at_path<'a>(value: &'a Json, path: &[&str]) -> (r: Option<&'a Json>)
    ensures
        match spec_value_at_path(value@, key_views(path@)) {
            Some(x) => r matches Some(y) && y@ == x,
            None => r is None,
        },
{
    let n = path.len();
    let ghost ks = key_views(path@);
    let mut current = value;
    assert(ks.skip(0) =~= ks);
    for i in 0..n
        invariant
            n == path@.len(),
            ks == key_views(path@),
            spec_value_at_path(value@, ks) == spec_value_at_path(current@, ks.skip(i as int)),
    {
        assert(ks.skip(i as int)[0] == path@[i as int]@);
        assert(ks.skip(i as int).drop_first() =~= ks.skip(i + 1));
        current = match get(current, path[i]) {
            Some(x) => x,
            None => return None,
        };
    }
    assert(ks.skip(n as int) =~= Seq::<Seq<char>>::empty());
    Some(current)
}

/// Where a list answer may hold its groups, in the order they are looked
/// for.
pub open spec fn group_paths() -> Seq<Seq<Seq<char>>> {
    seq![
        seq!["groups"@],
        seq!["rooms"@],
        seq!["list"@],
        seq!["items"@],
        seq!["data"@],
        seq!["data"@, "groups"@],
        seq!["data"@, "rooms"@],
        seq!["data"@, "list"@],
        seq!["data"@, "items"@],
        seq!["result"@, "groups"@],
        seq!["result"@, "rooms"@],
        seq!["result"@, "items"@],
    ]
}

/// The groups of the array at the first of `paths` that leads to one.
pub open spec fn groups_at_paths(data: JsonV, paths: Seq<Seq<Seq<char>>>) -> Option<Seq<GroupV>>
    decreases paths.len(),
{
    if paths.len() == 0 {
        None
    } else {
        let found = match spec_value_at_path(data, paths[0]) {
            Some(v) => spec_parse_group_vec(v),
            None => None,
        };
        match found {
            Some(gs) => Some(gs),
            None => groups_at_paths(data, paths.drop_first()),
        }
    }
}

/// The public groups of a list answer: the answer itself when it is an
/// array, else the array at the first of `group_paths` that leads to one;
/// only groups with a positive id.
pub open spec fn spec_public_group_list(data: JsonV) -> Seq<GroupV> {
    match spec_parse_group_vec(data) {
        Some(gs) => positive_groups(gs),
        None => match groups_at_paths(data, group_paths()) {
            Some(gs) => positive_groups(gs),
            None => Seq::empty(),
        },
    }
}

pub fn public_group_list(data: &Json) -> (r: Vec<Group>)
    ensures
        groups_v(r@) == spec_public_group_list(data@),
{
    if let Some(groups) = parse_group_vec(data) {
        return keep_positive(groups);
    }
    let paths: Vec<Vec<&str>> = vec![
        vec!["groups"],
        vec!["rooms"],
        vec!["list"],
        vec!["items"],
        vec!["data"],
        vec!["data", "groups"],
        vec!["data", "rooms"],
        vec!["data", "list"],
        vec!["data", "items"],
        vec!["result", "groups"],
        vec!["result", "rooms"],
        vec!["result", "items"],
    ];
    let ghost ps = paths@.map_values(|p: Vec<&str>| key_views(p@));
    assert(ps =~~= group_paths());
    let n = paths.len();
    assert(ps.skip(0) =~= ps);
    for i in 0..n
        invariant
            n == paths@.len(),
            ps == paths@.map_values(|p: Vec<&str>| key_views(p@)),
            ps == group_paths(),
            groups_at_paths(data@, ps) == groups_at_paths(data@, ps.skip(i as int)),
    {
        assert(ps.skip(i as int)[0] == key_views(paths@[i as int]@));
        assert(ps.skip(i as int).drop_first() =~= ps.skip(i + 1));
        let found = match value_at_path(data, paths[i].as_slice()) {
            Some(v) => parse_group_vec(v),
            None => None,
        };
        if let Some(groups) = found {
            return keep_positive(groups);
        }
    }
    assert(ps.skip(n as int) =~= Seq::<Seq<Seq<char>>>::empty());
    Vec::new()
}

/// A group found by a search.
pub struct GroupSearchResult {
    pub room_id: i64,
    pub room_name: String,
    pub intro: String,
    pub notice: String,
    pub owner_name: String,
    pub join_type: i64,
    pub ask_question: String,
    pub is_in_group: bool,
    pub has_apply: bool,
}

pub struct GroupSearchV {
    pub room_id: i64,
    pub room_name: Seq<char>,
    pub intro: Seq<char>,
    pub notice: Seq<char>,
    pub owner_name: Seq<char>,
    pub join_type: i64,
    pub ask_question: Seq<char>,
    pub is_in_group: bool,
    pub has_apply: bool,
}

pub open spec fn group_search_v(g: GroupSearchResult) -> GroupSearchV {
    GroupSearchV {
        room_id: g.room_id,
        room_name: g.room_name@,
        intro: g.intro@,
        notice: g.notice@,
        owner_name: g.owner_name@,
        join_type: g.join_type,
        ask_question: g.ask_question@,
        is_in_group: g.is_in_group,
        has_apply: g.has_apply,
    }
}

/// `o`, or `d` when it is `None`.
pub open spec fn or_text(o: Option<Seq<char>>, d: Seq<char>) -> Seq<char> {
    match o {
        Some(x) => x,
        None => d,
    }
}

/// The group of a search answer: the first of `room`, `group`,
/// `data.room`, `data.group` present (no result without one); its id from
/// the first of `id`, `room_id`, `rid`, `group_id` that reads as an integer
/// (else 0); texts from the first of their keys present (`未命名群组` and
/// `未知` for a missing name and owner, else empty); its join rule (else 1);
/// the membership flags from the answer, else from the group.
pub open spec fn spec_group_search_result(data: JsonV) -> Option<GroupSearchV> {
    let room = match json_get(data, "room"@) {
        Some(r) => Some(r),
        None => match json_get(data, "group"@) {
            Some(r) => Some(r),
            None => match json_get(data, "data"@) {
                Some(d) => match json_get(d, "room"@) {
                    Some(r) => Some(r),
                    None => json_get(d, "group"@),
                },
                None => None,
            },
        },
    };
    match room {
        None => None,
        Some(room) => Some(
            GroupSearchV {
                room_id: match first_int(room, seq!["id"@, "room_id"@, "rid"@, "group_id"@]) {
                    Some(x) => x,
                    None => 0,
                },
                room_name: or_text(
                    text_of(first_present(room, seq!["room_name"@, "name"@, "title"@])),
                    "未命名群组"@,
                ),
                intro: or_text(
                    text_of(first_present(room, seq!["intro"@, "description"@, "desc"@])),
                    Seq::empty(),
                ),
                notice: or_text(text_of(json_get(room, "notice"@)), Seq::empty()),
                owner_name: or_text(
                    text_of(first_present(room, seq!["owner_name"@, "owner_nickname"@])),
                    "未知"@,
                ),
                join_type: match int_at(room, "join_type"@) {
                    Some(j) => j,
                    None => 1,
                },
                ask_question: or_text(
                    text_of(first_present(room, seq!["ask_question"@, "question"@])),
                    Seq::empty(),
                ),
                is_in_group: match (match json_get(data, "is_in_group"@) {
                    Some(x) => Some(x),
                    None => json_get(room, "is_in_group"@),
                }) {
                    Some(x) => spec_value_to_bool(x) == Some(true),
                    None => false,
                },
                has_apply: match (match json_get(data, "has_apply"@) {
                    Some(x) => Some(x),
                    None => json_get(room, "has_apply"@),
                }) {
                    Some(x) => spec_value_to_bool(x) == Some(true),
                    None => false,
                },
            },
        ),
    }
}

fn or_string(o: Option<String>, d: &str) -> (r: String)
    ensures
        r@ == or_text(opt_v(o), d@),
{
    match o {
        Some(x) => x,
        None => d.to_string(),
    }
}

fn flag_either(data: &Json, room: &Json, key: &str) -> (r: bool)
    ensures
        r == match (match json_get(data@, key@) {
            Some(x) => Some(x),
            None => json_get(room@, key@),
        }) {
            Some(x) => spec_value_to_bool(x) == Some(true),
            None => false,
        },
{
    let v = match get(data, key) {
        Some(x) => Some(x),
        None => get(room, key),
    };
    match v {
        Some(x) => value_to_bool(x) == Some(true),
        None => false,
    }
}

/// The group found by a search under `room` keeps what the answer says of
/// it: its integer `id`, its string `room_name` and `intro`.
pub proof fn law_group_search_keeps_room(data: JsonV, room: JsonV)
    requires
        json_get(data, "room"@) == Some(room),
    ensures
        spec_group_search_result(data) is Some,
        json_get(room, "id"@) matches Some(JsonV::Number(Some(id), _))
            ==> spec_group_search_result(data)->0.room_id == id,
        json_get(room, "room_name"@) matches Some(JsonV::Str(t))
            ==> spec_group_search_result(data)->0.room_name == t,
        json_get(room, "intro"@) matches Some(JsonV::Str(t))
            ==> spec_group_search_result(data)->0.intro == t,
{
    reveal_with_fuel(first_int, 2);
    reveal_with_fuel(first_present, 2);
    let ik = seq!["intro"@, "description"@, "desc"@];
    assert(ik[0] == "intro"@);
    let nk = seq!["room_name"@, "name"@, "title"@];
    assert(nk[0] == "room_name"@);
    let idk = seq!["id"@, "room_id"@, "rid"@, "group_id"@];
    assert(idk[0] == "id"@);
}

/// The rest of what a search answer says of the group found under `room`
/// is kept: its string `notice`, `owner_name` and `ask_question`, its
/// integer `join_type` (1 when missing), and the `true`/`false` flags of
/// the answer; an answer without `room`, `group` or `data` finds nothing.
pub proof fn law_group_search_details(data: JsonV, room: JsonV)
    ensures
        (json_get(data, "room"@) is None && json_get(data, "group"@) is None && json_get(
            data,
            "data"@,
        ) is None) ==> spec_group_search_result(data) is None,
        json_get(data, "room"@) == Some(room) ==> {
            let g = spec_group_search_result(data)->0;
            &&& (json_get(room, "notice"@) matches Some(JsonV::Str(t)) ==> g.notice == t)
            &&& (json_get(room, "owner_name"@) matches Some(JsonV::Str(t)) ==> g.owner_name == t)
            &&& (json_get(room, "ask_question"@) matches Some(JsonV::Str(t)) ==> g.ask_question
                == t)
            &&& (json_get(room, "join_type"@) matches Some(JsonV::Number(Some(j), _))
                ==> g.join_type == j)
            &&& (json_get(room, "join_type"@) is None ==> g.join_type == 1)
            &&& (json_get(data, "is_in_group"@) matches Some(JsonV::Bool(b)) ==> g.is_in_group
                == b)
            &&& (json_get(data, "has_apply"@) matches Some(JsonV::Bool(b)) ==> g.has_apply == b)
        },
{
    reveal_with_fuel(first_present, 2);
    let ok = seq!["owner_name"@, "owner_nickname"@];
    assert(ok[0] == "owner_name"@);
    let qk = seq!["ask_question"@, "question"@];
    assert(qk[0] == "ask_question"@);
}

pub fn group_search_result(data: &Json) -> (r: Option<GroupSearchResult>)
    ensures
        match spec_group_search_result(data@) {
            Some(g) => r matches Some(x) && group_search_v(x) == g,
            None => r is None,
        },
{
    let room = match get(data, "room") {
        Some(r) => Some(r),
        None => match get(data, "group") {
            Some(r) => Some(r),
            None => match get(data, "data") {
                Some(d) => match get(d, "room") {
                    Some(r) => Some(r),
                    None => get(d, "group"),
                },
                None => None,
            },
        },
    };
    let room = match room {
        Some(r) => r,
        None => return None,
    };
    let id_keys = ["id", "room_id", "rid", "group_id"];
    assert(key_views(id_keys@) =~= seq!["id"@, "room_id"@, "rid"@, "group_id"@]);
    let name_keys = ["room_name", "name", "title"];
    assert(key_views(name_keys@) =~= seq!["room_name"@, "name"@, "title"@]);
    let intro_keys = ["intro", "description", "desc"];
    assert(key_views(intro_keys@) =~= seq!["intro"@, "description"@, "desc"@]);
    let owner_keys = ["owner_name", "owner_nickname"];
    assert(key_views(owner_keys@) =~= seq!["owner_name"@, "owner_nickname"@]);
    let question_keys = ["ask_question", "question"];
    assert(key_views(question_keys@) =~= seq!["ask_question"@, "question"@]);
    let room_id: i64 = match first_int_exec(room, &id_keys) {
        Some(x) => x,
        None => 0,
    };
    let join_type: i64 = match int_at_exec(room, "join_type") {
        Some(j) => j,
        None => 1,
    };
    proof {
        reveal_strlit("");
        assert(""@ =~= Seq::<char>::empty());
    }
    Some(
        GroupSearchResult {
            room_id,
            room_name: or_string(text_of_exec(get_first(room, &name_keys)), "未命名群组"),
            intro: or_string(text_of_exec(get_first(room, &intro_keys)), ""),
            notice: or_string(text_of_exec(get(room, "notice")), ""),
            owner_name: or_string(text_of_exec(get_first(room, &owner_keys)), "未知"),
            join_type,
            ask_question: or_string(text_of_exec(get_first(room, &question_keys)), ""),
            is_in_group: flag_either(data, room, "is_in_group"),
            has_apply: flag_either(data, room, "has_apply"),
        },
    )
}

/// A chat message.
pub struct Message {
    pub id: i64,
    pub uid: Option<i64>,
    pub from_uid: Option<i64>,
    pub nickname: Option<String>,
    pub avatar: Option<String>,
    pub content: Option<String>,
    pub msg_type: Option<i64>,
    pub image_url: Option<String>,
    pub voice_url: Option<String>,
    pub duration: Option<i64>,
    pub voice_duration: Option<i64>,
    pub add_time: Option<String>,
    pub created_at: Option<i64>,
    pub can_recall: Option<bool>,
    pub is_recalled: Option<i64>,
    pub is_read: Option<i64>,
    pub is_mentioned: Option<bool>,
    pub reply_to_me: Option<bool>,
}

/// When a message was sent: its `add_time`, else its `created_at` number,
/// else nothing.
pub open spec fn spec_message_time(msg: Message) -> Seq<char> {
    match msg.add_time {
        Some(t) => t@,
        None => match msg.created_at {
            Some(c) => int_text(c as int),
            None => Seq::empty(),
        },
    }
}

pub fn message_time(msg: &Message) -> (r: String)
    ensures
        r@ == spec_message_time(*msg),
{
    match &msg.add_time {
        Some(t) => t.clone(),
        None => match msg.created_at {
            Some(c) => i64_string(c),
            None => String::new(),
        },
    }
}

/// The JSON number of an integer.
pub open spec fn int_json(n: i64) -> JsonV {
    JsonV::Number(Some(n), int_text(n as int))
}

pub(crate) fn int_number(n: i64) -> (r: Json)
    ensures
        r@ == int_json(n),
{
    Json::Number(JsonNumber { int: Some(n), text: i64_string(n) })
}

/// The id of the last message of a loaded chat: the integer `id` of the
/// last item of the `messages` array, 0 when there is none.
pub open spec fn last_message_id(data: JsonV) -> i64 {
    match json_get(data, "messages"@) {
        Some(JsonV::Array(items)) => if items.len() > 0 {
            match json_as_i64(json_get(items.last(), "id"@)) {
                Some(n) => n,
                None => 0,
            }
        } else {
            0
        },
        _ => 0,
    }
}

/// The parameters that mark a loaded chat read: for a group chat, the
/// room and the id of its last message, and nothing when that id is not
/// positive; for a private chat, the friend.
pub open spec fn spec_mark_read_params(is_group: bool, target_id: i64, data: JsonV) -> Option<
    Seq<(Seq<char>, JsonV)>,
> {
    if is_group {
        let last = last_message_id(data);
        if last > 0 {
            Some(seq![("room_id"@, int_json(target_id)), ("last_msg_id"@, int_json(last))])
        } else {
            None
        }
    } else {
        Some(seq![("friend_id"@, int_json(target_id))])
    }
}

/// The parameters that mark the chat `target_id` of `kind` (`group` or
/// not) read after `data` was loaded, as `spec_mark_read_params`
/// describes; `None` when nothing is to be sent.
pub fn mark_read_params(kind: &str, target_id: i64, data: &Json) -> (r: Option<Json>)
    ensures
        match spec_mark_read_params(kind@ == "group"@, target_id, data@) {
            Some(m) => r matches Some(j) && j@ == JsonV::Object(m),
            None => r is None,
        },
{
    let is_group = crate::text::chars_eq(chars_of(kind).as_slice(), chars_of("group").as_slice());
    if !is_group {
        let mut m: Vec<(String, Json)> = Vec::new();
        m.push(("friend_id".to_string(), int_number(target_id)));
        let r = crate::json::object(m);
        assert(crate::json::members_view(m@) =~= seq![("friend_id"@, int_json(target_id))]);
        return Some(r);
    }
    let last: i64 = match get(data, "messages") {
        Some(Json::Array(items)) => {
            if items.len() > 0 {
                let item = &items[items.len() - 1];
                assert(json_get(data@, "messages"@) matches Some(JsonV::Array(vs)) && vs.len()
                    == items@.len() && vs.last() == item@);
                match get(item, "id") {
                    Some(Json::Number(n)) => match n.int {
                        Some(i) => i,
                        None => 0,
                    },
                    _ => 0,
                }
            } else {
                0
            }
        },
        _ => 0,
    };
    assert(last == last_message_id(data@));
    if last > 0 {
        let mut m: Vec<(String, Json)> = Vec::new();
        m.push(("room_id".to_string(), int_number(target_id)));
        m.push(("last_msg_id".to_string(), int_number(last)));
        assert(crate::json::members_view(m@) =~= seq![
            ("room_id"@, int_json(target_id)),
            ("last_msg_id"@, int_json(last)),
        ]);
        Some(crate::json::object(m))
    } else {
        None
    }
}

/// The names shown on the group management page: the room's name, or the
/// name it was opened with when that is blank; the owner's name, or `未知`
/// when that is blank.
pub fn group_manage_names(room_name: String, owner_name: String, opened_as: String) -> (r: (
    String,
    String,
))
    ensures
        r.0@ == (if trim(room_name@).len() == 0 {
            opened_as@
        } else {
            room_name@
        }),
        r.1@ == (if trim(owner_name@).len() == 0 {
            "未知"@
        } else {
            owner_name@
        }),
{
    let room = if trim_chars(chars_of(room_name.as_str()).as_slice(), Trim::Whitespace).len() == 0 {
        opened_as
    } else {
        room_name
    };
    let owner = if trim_chars(chars_of(owner_name.as_str()).as_slice(), Trim::Whitespace).len()
        == 0 {
        "未知".to_string()
    } else {
        owner_name
    };
    (room, owner)
}

} // verus!
