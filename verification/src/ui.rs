//! The desktop client's texts: labels for states and roles, media paths,
//! links in notices, and plain text of HTML.
use vstd::prelude::*;
use crate::json::{i64_string, int_text};
use crate::text::{
    ascii_lower_seq, chars_eq, chars_of, concat_chars, find_chars, find_from, is_whitespace,
    is_ws, lemma_find_from, starts_with, starts_with_chars, string_of, sub_vec,
    to_ascii_lower_chars, trim, trim_chars, trim_start_by, trim_start_chars, Trim,
};

verus! {

broadcast use vstd::string::group_string_axioms;

/// The label of a member's role.
pub fn role_text(is_owner: bool, is_admin: bool) -> (r: &'static str)
    ensures
        r@ == (if is_owner {
            "群主"@
        } else if is_admin {
            "管理员"@
        } else {
            "成员"@
        }),
{
    if is_owner {
        "群主"
    } else if is_admin {
        "管理员"
    } else {
        "成员"
    }
}

/// The label of an on/off setting: off for 0, on otherwise.
pub fn switch_text(value: i64) -> (r: &'static str)
    ensures
        r@ == (if value == 0 {
            "关闭"@
        } else {
            "开启"@
        }),
{
    if value == 0 {
        "关闭"
    } else {
        "开启"
    }
}

/// The label of a group's join rule.
pub fn join_type_text(join_type: i64) -> (r: &'static str)
    ensures
        r@ == (if join_type == 1 {
            "直接加入"@
        } else if join_type == 2 {
            "自动轮换邀请码"@
        } else if join_type == 3 {
            "固定邀请码"@
        } else if join_type == 4 {
            "问答审核"@
        } else {
            "未知规则"@
        }),
{
    match join_type {
        1 => "直接加入",
        2 => "自动轮换邀请码",
        3 => "固定邀请码",
        4 => "问答审核",
        _ => "未知规则",
    }
}

/// The label of the join button for a join rule.
pub fn group_join_button_text(join_type: i64) -> (r: &'static str)
    ensures
        r@ == (if join_type == 2 || join_type == 3 {
            "用邀请码加入"@
        } else if join_type == 4 {
            "提交答案"@
        } else {
            "加入群组"@
        }),
{
    match join_type {
        2 | 3 => "用邀请码加入",
        4 => "提交答案",
        _ => "加入群组",
    }
}

/// Where the user stands with a group.
pub fn group_join_state_text(is_in_group: bool, has_apply: bool, join_type: i64) -> (r: &'static str)
    ensures
        r@ == (if is_in_group {
            "已加入"@
        } else if has_apply {
            "等待审核"@
        } else if join_type == 1 {
            "可直接加入"@
        } else if join_type == 2 || join_type == 3 {
            "需要邀请码"@
        } else if join_type == 4 {
            "需要回答问题"@
        } else {
            "可申请加入"@
        }),
{
    if is_in_group {
        "已加入"
    } else if has_apply {
        "等待审核"
    } else {
        match join_type {
            1 => "可直接加入",
            2 | 3 => "需要邀请码",
            4 => "需要回答问题",
            _ => "可申请加入",
        }
    }
}

/// Whether a member may speak: muted until a time, muted, or free.
pub open spec fn spec_mute_text(mute_until: i64, is_muted: bool) -> Seq<char> {
    if is_muted {
        if mute_until > 0 {
            "禁言至 "@ + int_text(mute_until as int)
        } else {
            "禁言中"@
        }
    } else {
        "可发言"@
    }
}

pub fn mute_text(mute_until: i64, is_muted: bool) -> (r: String)
    ensures
        r@ == spec_mute_text(mute_until, is_muted),
{
    if is_muted {
        if mute_until > 0 {
            let t = i64_string(mute_until);
            string_of(
                concat_chars(chars_of("禁言至 ").as_slice(), chars_of(t.as_str()).as_slice()).as_slice(),
            )
        } else {
            "禁言中".to_string()
        }
    } else {
        "可发言".to_string()
    }
}

/// What is being reported.
pub enum ReportTarget {
    User { uid: i64, username: String, nickname: String },
    Group { room_id: i64, room_name: String },
}

/// How a report target is shown: its kind, its name, and its id line.
pub open spec fn spec_report_target_display(target: ReportTarget) -> (Seq<char>, Seq<char>, Seq<char>) {
    match target {
        ReportTarget::User { uid, username, nickname } => (
            "被举报对象：用户"@,
            nickname@,
            if trim(username@).len() == 0 {
                "UID "@ + int_text(uid as int)
            } else {
                "@"@ + username@ + " · UID "@ + int_text(uid as int)
            },
        ),
        ReportTarget::Group { room_id, room_name } => (
            "被举报对象：群组"@,
            room_name@,
            "群组 ID "@ + int_text(room_id as int),
        ),
    }
}

fn cat(a: &str, b: &str) -> (r: String)
    ensures
        r@ == a@ + b@,
{
    string_of(concat_chars(chars_of(a).as_slice(), chars_of(b).as_slice()).as_slice())
}

pub fn report_target_display(target: &ReportTarget) -> (r: (&'static str, String, String))
    ensures
        (r.0@, r.1@, r.2@) == spec_report_target_display(*target),
{
    match target {
        ReportTarget::User { uid, username, nickname } => {
            let id = i64_string(*uid);
            let line = if trim_chars(chars_of(username.as_str()).as_slice(), Trim::Whitespace).len()
                == 0 {
                cat("UID ", id.as_str())
            } else {
                let a = cat("@", username.as_str());
                let b = cat(a.as_str(), " · UID ");
                cat(b.as_str(), id.as_str())
            };
            ("被举报对象：用户", nickname.clone(), line)
        },
        ReportTarget::Group { room_id, room_name } => {
            let id = i64_string(*room_id);
            ("被举报对象：群组", room_name.clone(), cat("群组 ID ", id.as_str()))
        },
    }
}

/// The pages of the client.
pub enum Page {
    Login,
    Register,
    Home,
    PublicGroups,
    Notices,
    Account,
    About,
    UserDetail(i64),
    Report(ReportTarget),
    GroupChat(i64, String),
    GroupManage(i64, String),
    PrivateChat(i64, String),
}

/// The title of a page; a chat or group page is titled by its name.
pub open spec fn spec_page_title(page: Page) -> Seq<char> {
    match page {
        Page::Login => "登录"@,
        Page::Register => "注册"@,
        Page::Home => "工作台"@,
        Page::PublicGroups => "公开群组"@,
        Page::Notices => "通知中心"@,
        Page::Account => "账户管理"@,
        Page::About => "关于"@,
        Page::UserDetail(_) => "用户详情"@,
        Page::Report(_) => "举报中心"@,
        Page::GroupChat(_, name) => name@,
        Page::GroupManage(_, name) => name@,
        Page::PrivateChat(_, name) => name@,
    }
}

pub fn page_title(page: &Page) -> (r: String)
    ensures
        r@ == spec_page_title(*page),
{
    match page {
        Page::Login => "登录".to_string(),
        Page::Register => "注册".to_string(),
        Page::Home => "工作台".to_string(),
        Page::PublicGroups => "公开群组".to_string(),
        Page::Notices => "通知中心".to_string(),
        Page::Account => "账户管理".to_string(),
        Page::About => "关于".to_string(),
        Page::UserDetail(_) => "用户详情".to_string(),
        Page::Report(_) => "举报中心".to_string(),
        Page::GroupChat(_, name) => name.clone(),
        Page::GroupManage(_, name) => name.clone(),
        Page::PrivateChat(_, name) => name.clone(),
    }
}

/// The subtitle of a page.
pub open spec fn spec_page_subtitle(page: Page) -> Seq<char> {
    match page {
        Page::Login => "连接到 UniCsAC 统一聊天服务"@,
        Page::Register => "连接到 UniCsAC 统一聊天服务"@,
        Page::Home => "好友、群组和请求集中管理"@,
        Page::PublicGroups => "浏览并申请加入公开群组"@,
        Page::Notices => "查看系统消息与未读提醒"@,
        Page::Account => "更新资料、头像和密码"@,
        Page::About => "版本、许可证和项目来源"@,
        Page::UserDetail(_) => "查看用户资料、好友关系和创建群组"@,
        Page::Report(_) => "向网站管理员提交用户或群组举报"@,
        Page::GroupChat(_, _) => "群聊消息"@,
        Page::GroupManage(_, _) => "群组资料、成员和权限设置"@,
        Page::PrivateChat(_, _) => "私聊消息"@,
    }
}

pub fn page_subtitle(page: &Page) -> (r: &'static str)
    ensures
        r@ == spec_page_subtitle(*page),
{
    match page {
        Page::Login | Page::Register => "连接到 UniCsAC 统一聊天服务",
        Page::Home => "好友、群组和请求集中管理",
        Page::PublicGroups => "浏览并申请加入公开群组",
        Page::Notices => "查看系统消息与未读提醒",
        Page::Account => "更新资料、头像和密码",
        Page::About => "版本、许可证和项目来源",
        Page::UserDetail(_) => "查看用户资料、好友关系和创建群组",
        Page::Report(_) => "向网站管理员提交用户或群组举报",
        Page::GroupChat(_, _) => "群聊消息",
        Page::GroupManage(_, _) => "群组资料、成员和权限设置",
        Page::PrivateChat(_, _) => "私聊消息",
    }
}

/// A media path as a URL: a URL or an empty path as it is, otherwise on
/// the primary site without leading slashes.
pub open spec fn spec_absolute_media(path: Seq<char>) -> Seq<char> {
    if starts_with(path, "http://"@) || starts_with(path, "https://"@) || path.len() == 0 {
        path
    } else {
        "https://cschat.ccccocccc.cc/"@ + trim_start_by(path, Trim::Char('/'))
    }
}

/// Making a media path absolute twice is the same as once.
pub proof fn law_absolute_media_idempotent(path: Seq<char>)
    ensures
        spec_absolute_media(spec_absolute_media(path)) == spec_absolute_media(path),
{
    reveal_strlit("https://");
    reveal_strlit("https://cschat.ccccocccc.cc/");
    let r = spec_absolute_media(path);
    if !(starts_with(path, "http://"@) || starts_with(path, "https://"@) || path.len() == 0) {
        let t = trim_start_by(path, Trim::Char('/'));
        assert(r == "https://cschat.ccccocccc.cc/"@ + t);
        assert(r.take(8) =~= "https://"@);
        assert(starts_with(r, "https://"@));
    }
}

pub fn absolute_media(path: String) -> (r: String)
    ensures
        r@ == spec_absolute_media(path@),
{
    let p = chars_of(path.as_str());
    if starts_with_chars(p.as_slice(), chars_of("http://").as_slice()) || starts_with_chars(
        p.as_slice(),
        chars_of("https://").as_slice(),
    ) || p.len() == 0 {
        path
    } else {
        let rest = trim_start_chars(p.as_slice(), Trim::Char('/'));
        string_of(
            concat_chars(chars_of("https://cschat.ccccocccc.cc/").as_slice(), rest.as_slice()).as_slice(),
        )
    }
}

/// The text after the last `c` of `s` (all of `s` when there is none).
pub open spec fn after_last(s: Seq<char>, c: char) -> Seq<char>
    decreases s.len(),
{
    if s.len() == 0 {
        s
    } else if s.last() == c {
        Seq::empty()
    } else {
        after_last(s.drop_last(), c).push(s.last())
    }
}

fn after_last_exec(s: &[char], c: char) -> (r: Vec<char>)
    ensures
        r@ == after_last(s@, c),
{
    let mut j = s.len();
    assert(s@.subrange(0, j as int) =~= s@);
    while j > 0 && s[j - 1] != c
        invariant
            j <= s@.len(),
            after_last(s@, c) == after_last(s@.subrange(0, j as int), c) + s@.subrange(
                j as int,
                s@.len() as int,
            ),
        decreases j,
    {
        let ghost p = s@.subrange(0, j as int);
        assert(p.drop_last() =~= s@.subrange(0, j - 1));
        assert(after_last(p, c) == after_last(s@.subrange(0, j - 1), c).push(s@[j - 1]));
        assert(after_last(s@.subrange(0, j - 1), c).push(s@[j - 1]) + s@.subrange(
            j as int,
            s@.len() as int,
        ) =~= after_last(s@.subrange(0, j - 1), c) + s@.subrange(j - 1, s@.len() as int));
        j = j - 1;
    }
    if j > 0 {
        assert(after_last(s@.subrange(0, j as int), c) =~= Seq::<char>::empty());
    } else {
        assert(s@.subrange(0, 0) =~= Seq::<char>::empty());
    }
    let r = sub_vec(s, j, s.len());
    assert(r@ =~= after_last(s@, c));
    r
}

/// Whether a message text is the path of an uploaded image: trimmed, not
/// empty or a `[图片]`/`[语音]` placeholder, starting (in any ASCII case)
/// with an upload folder or a URL scheme, and ending in an image extension.
pub open spec fn spec_looks_like_media_path(value: Seq<char>) -> bool {
    let v = trim(value);
    let lower = ascii_lower_seq(v);
    let ext = after_last(lower, '.');
    if v.len() == 0 || v == "[图片]"@ || v == "[语音]"@ {
        false
    } else {
        (starts_with(lower, "upload/"@) || starts_with(lower, "uploads/"@) || starts_with(
            lower,
            "/upload/"@,
        ) || starts_with(lower, "/uploads/"@) || starts_with(lower, "http://"@) || starts_with(
            lower,
            "https://"@,
        )) && (ext == "jpg"@ || ext == "jpeg"@ || ext == "png"@ || ext == "gif"@ || ext == "webp"@
            || ext == "bmp"@)
    }
}

fn eq_lit(w: &[char], lit: &str) -> (r: bool)
    ensures
        r == (w@ == lit@),
{
    chars_eq(w, chars_of(lit).as_slice())
}

fn starts_lit(w: &[char], lit: &str) -> (r: bool)
    ensures
        r == starts_with(w@, lit@),
{
    starts_with_chars(w, chars_of(lit).as_slice())
}

pub fn looks_like_media_path(value: &str) -> (r: bool)
    ensures
        r == spec_looks_like_media_path(value@),
{
    let v = trim_chars(chars_of(value).as_slice(), Trim::Whitespace);
    let v = v.as_slice();
    if v.len() == 0 || eq_lit(v, "[图片]") || eq_lit(v, "[语音]") {
        return false;
    }
    let lower = to_ascii_lower_chars(v);
    let l = lower.as_slice();
    let ext = after_last_exec(l, '.');
    let e = ext.as_slice();
    (starts_lit(l, "upload/") || starts_lit(l, "uploads/") || starts_lit(l, "/upload/")
        || starts_lit(l, "/uploads/") || starts_lit(l, "http://") || starts_lit(l, "https://"))
        && (eq_lit(e, "jpg") || eq_lit(e, "jpeg") || eq_lit(e, "png") || eq_lit(e, "gif")
        || eq_lit(e, "webp") || eq_lit(e, "bmp"))
}

/// The text outside `<...>` (a tag's brackets and contents dropped), and
/// whether a tag is still open.
pub open spec fn html_scan(s: Seq<char>) -> (Seq<char>, bool)
    decreases s.len(),
{
    if s.len() == 0 {
        (Seq::empty(), false)
    } else {
        let (out, in_tag) = html_scan(s.drop_last());
        let c = s.last();
        if c == '<' {
            (out, true)
        } else if c == '>' {
            (out, false)
        } else if !in_tag {
            (out.push(c), false)
        } else {
            (out, true)
        }
    }
}

/// Stripping tags leaves no angle bracket and never makes a text longer.
pub proof fn law_strip_html_no_brackets(s: Seq<char>)
    ensures
        forall|i: int|
            0 <= i < html_scan(s).0.len() ==> #[trigger] html_scan(s).0[i] != '<'
                && html_scan(s).0[i] != '>',
        html_scan(s).0.len() <= s.len(),
    decreases s.len(),
{
    if s.len() > 0 {
        law_strip_html_no_brackets(s.drop_last());
        let prev = html_scan(s.drop_last()).0;
        assert forall|i: int| 0 <= i < html_scan(s).0.len() implies #[trigger] html_scan(s).0[i]
            != '<' && html_scan(s).0[i] != '>' by {
            if i < prev.len() {
                assert(html_scan(s).0[i] == prev[i]);
            }
        }
    }
}

/// The text of `input` without its tags.
pub fn strip_html(input: &str) -> (r: String)
    ensures
        r@ == html_scan(input@).0,
{
    let s = chars_of(input);
    let mut out: Vec<char> = Vec::new();
    let mut in_tag = false;
    let n = s.len();
    for i in 0..n
        invariant
            n == s@.len(),
            s@ == input@,
            (out@, in_tag) == html_scan(s@.take(i as int)),
    {
        assert(s@.take(i + 1).drop_last() =~= s@.take(i as int));
        let c = s[i];
        if c == '<' {
            in_tag = true;
        } else if c == '>' {
            in_tag = false;
        } else if !in_tag {
            out.push(c);
        }
    }
    assert(s@.take(n as int) =~= s@);
    string_of(out.as_slice())
}

/// A piece of a notice: plain text or a link.
pub enum LinkSegment {
    Text(String),
    Url(String),
}

pub enum LinkV {
    Text(Seq<char>),
    Url(Seq<char>),
}

pub open spec fn link_v(l: LinkSegment) -> LinkV {
    match l {
        LinkSegment::Text(t) => LinkV::Text(t@),
        LinkSegment::Url(u) => LinkV::Url(u@),
    }
}

/// Where the next link starts: the first `http://`, or else the first
/// `https://`.
pub open spec fn url_start(rest: Seq<char>) -> Option<int> {
    match find_from(rest, "http://"@, 0) {
        Some(i) => Some(i),
        None => find_from(rest, "https://"@, 0),
    }
}

/// A character that ends a link: whitespace, quotes, angle brackets, or a
/// full-width comma or full stop.
pub open spec fn is_url_stop(c: char) -> bool {
    is_ws(c) || c == '"' || c == '\'' || c == '<' || c == '>' || c == '，' || c == '。'
}

/// The index of the first character that ends a link.
pub open spec fn first_stop(s: Seq<char>) -> Option<int>
    decreases s.len(),
{
    if s.len() == 0 {
        None
    } else {
        match first_stop(s.drop_last()) {
            Some(i) => Some(i),
            None => if is_url_stop(s.last()) {
                Some(s.len() - 1)
            } else {
                None
            },
        }
    }
}

/// The length of the link at the start of `after`.
pub open spec fn link_len(after: Seq<char>) -> int {
    match first_stop(after) {
        Some(k) => k,
        None => after.len() as int,
    }
}

proof fn lemma_first_stop_bound(s: Seq<char>)
    ensures
        first_stop(s) matches Some(k) ==> 0 <= k < s.len() && is_url_stop(s[k]),
    decreases s.len(),
{
    if s.len() > 0 {
        lemma_first_stop_bound(s.drop_last());
    }
}

/// A link starts with `http`, so it is never empty.
proof fn lemma_url_start(rest: Seq<char>)
    ensures
        url_start(rest) matches Some(i) ==> 0 <= i && i < rest.len() && rest[i] == 'h',
{
    reveal_strlit("http://");
    reveal_strlit("https://");
    lemma_find_from(rest, "http://"@, 0);
    lemma_find_from(rest, "https://"@, 0);
    if let Some(i) = url_start(rest) {
        if find_from(rest, "http://"@, 0) is Some {
            assert(rest.subrange(i, i + 7)[0] == 'h');
        } else {
            assert(rest.subrange(i, i + 8)[0] == 'h');
        }
    }
}

/// The pieces of a notice text: text between links, and the links, each
/// running from `http://` or `https://` up to the first character that
/// ends a link.
pub open spec fn spec_link_segments(rest: Seq<char>) -> Seq<LinkV>
    decreases rest.len(),
{
    match url_start(rest) {
        None => if rest.len() > 0 {
            seq![LinkV::Text(rest)]
        } else {
            Seq::empty()
        },
        Some(i) => {
            let after = rest.skip(i);
            let end = link_len(after);
            let head = if i > 0 {
                seq![LinkV::Text(rest.take(i))]
            } else {
                Seq::empty()
            };
            if 0 <= i < rest.len() && 0 < end <= after.len() {
                head + seq![LinkV::Url(after.take(end))] + spec_link_segments(after.skip(end))
            } else {
                Seq::empty()
            }
        },
    }
}

/// The text of one piece.
pub open spec fn piece_text(p: LinkV) -> Seq<char> {
    match p {
        LinkV::Text(t) => t,
        LinkV::Url(u) => u,
    }
}

/// The texts of the pieces, one after another.
pub open spec fn pieces_text(ps: Seq<LinkV>) -> Seq<char>
    decreases ps.len(),
{
    if ps.len() == 0 {
        Seq::empty()
    } else {
        piece_text(ps[0]) + pieces_text(ps.drop_first())
    }
}

proof fn lemma_pieces_text_append(a: Seq<LinkV>, b: Seq<LinkV>)
    ensures
        pieces_text(a + b) == pieces_text(a) + pieces_text(b),
    decreases a.len(),
{
    if a.len() == 0 {
        assert(a + b =~= b);
    } else {
        assert((a + b).drop_first() =~= a.drop_first() + b);
        lemma_pieces_text_append(a.drop_first(), b);
        assert((a + b)[0] == a[0]);
    }
}

/// Splitting a notice loses nothing: its pieces, text and links alike,
/// read one after another give back the notice.
pub proof fn law_link_segments_cover(text: Seq<char>)
    ensures
        pieces_text(spec_link_segments(text)) == text,
    decreases text.len(),
{
    lemma_url_start(text);
    match url_start(text) {
        None => {
            if text.len() > 0 {
                assert(pieces_text(seq![LinkV::Text(text)]) =~= text) by {
                    reveal_with_fuel(pieces_text, 2);
                    assert(seq![LinkV::Text(text)].drop_first() =~= Seq::<LinkV>::empty());
                }
            }
        },
        Some(i) => {
            let after = text.skip(i);
            lemma_first_stop_bound(after);
            assert(after[0] == 'h');
            let end = link_len(after);
            assert(0 < end <= after.len());
            let head = if i > 0 {
                seq![LinkV::Text(text.take(i))]
            } else {
                Seq::<LinkV>::empty()
            };
            let url = seq![LinkV::Url(after.take(end))];
            let tail = spec_link_segments(after.skip(end));
            law_link_segments_cover(after.skip(end));
            lemma_pieces_text_append(head + url, tail);
            lemma_pieces_text_append(head, url);
            assert(pieces_text(url) =~= after.take(end)) by {
                reveal_with_fuel(pieces_text, 2);
                assert(url.drop_first() =~= Seq::<LinkV>::empty());
            }
            assert(pieces_text(head) =~= text.take(i)) by {
                reveal_with_fuel(pieces_text, 2);
                if i > 0 {
                    assert(head.drop_first() =~= Seq::<LinkV>::empty());
                }
            }
            assert(text.take(i) + after.take(end) + after.skip(end) =~= text);
        },
    }
}

proof fn lemma_first_stop_clear(s: Seq<char>)
    ensures
        first_stop(s) matches Some(k) ==> forall|j: int| 0 <= j < k ==> !is_url_stop(#[trigger] s[j]),
        first_stop(s) is None ==> forall|j: int| 0 <= j < s.len() ==> !is_url_stop(#[trigger] s[j]),
    decreases s.len(),
{
    if s.len() > 0 {
        let p = s.drop_last();
        lemma_first_stop_clear(p);
        lemma_first_stop_bound(p);
        assert forall|j: int| 0 <= j < p.len() implies #[trigger] s[j] == p[j] by {}
    }
}

/// A well-formed piece: a link starts with `http://` or `https://` and
/// holds no character that ends a link; a text is not empty.
pub open spec fn piece_ok(p: LinkV) -> bool {
    match p {
        LinkV::Url(u) => (starts_with(u, "http://"@) || starts_with(u, "https://"@)) && forall|j: int|
            0 <= j < u.len() ==> !is_url_stop(#[trigger] u[j]),
        LinkV::Text(t) => t.len() > 0,
    }
}

/// Every piece is well formed and no two texts are next to each other.
pub open spec fn pieces_ok(ps: Seq<LinkV>) -> bool {
    &&& forall|i: int| 0 <= i < ps.len() ==> piece_ok(#[trigger] ps[i])
    &&& forall|i: int| 0 <= i < ps.len() - 1 ==> !((#[trigger] ps[i]) is Text && ps[i + 1] is Text)
}

/// The link that starts `after` (which starts with `http://` or
/// `https://`) is well formed.
proof fn lemma_link_piece(after: Seq<char>)
    requires
        starts_with(after, "http://"@) || starts_with(after, "https://"@),
    ensures
        piece_ok(LinkV::Url(after.take(link_len(after)))),
        0 < link_len(after) <= after.len(),
{
    reveal_strlit("http://");
    reveal_strlit("https://");
    lemma_first_stop_clear(after);
    lemma_first_stop_bound(after);
    let n: int = if starts_with(after, "http://"@) {
        7
    } else {
        8
    };
    let pre = after.take(n);
    assert forall|j: int| 0 <= j < n implies !is_url_stop(#[trigger] after[j]) by {
        assert(after[j] == pre[j]);
        if n == 7 {
            assert(pre =~= "http://"@);
        } else {
            assert(pre =~= "https://"@);
        }
    }
    let end = link_len(after);
    if let Some(k) = first_stop(after) {
        assert(k >= n);
    }
    assert(end >= n);
    let u = after.take(end);
    assert(u.take(n) =~= pre);
    assert forall|j: int| 0 <= j < u.len() implies !is_url_stop(#[trigger] u[j]) by {
        assert(u[j] == after[j]);
    }
}

/// Splitting a notice gives well-formed pieces: each link starts with
/// `http://` or `https://` and holds no character that ends a link, each
/// text is non-empty, and no two texts are next to each other.
pub proof fn law_link_segments_shape(text: Seq<char>)
    ensures
        pieces_ok(spec_link_segments(text)),
    decreases text.len(),
{
    reveal_strlit("http://");
    reveal_strlit("https://");
    lemma_url_start(text);
    match url_start(text) {
        None => {},
        Some(i) => {
            lemma_find_from(text, "http://"@, 0);
            lemma_find_from(text, "https://"@, 0);
            let after = text.skip(i);
            if find_from(text, "http://"@, 0) is Some {
                assert(after.take(7) =~= text.subrange(i, i + 7));
            } else {
                assert(after.take(8) =~= text.subrange(i, i + 8));
            }
            lemma_link_piece(after);
            let end = link_len(after);
            let head = if i > 0 {
                seq![LinkV::Text(text.take(i))]
            } else {
                Seq::<LinkV>::empty()
            };
            let url = seq![LinkV::Url(after.take(end))];
            let tail = spec_link_segments(after.skip(end));
            law_link_segments_shape(after.skip(end));
            let ps = head + url + tail;
            assert(spec_link_segments(text) == ps);
            let h = head.len() as int;
            assert forall|j: int| 0 <= j < ps.len() implies piece_ok(#[trigger] ps[j]) by {
                if j < h {
                    assert(ps[j] == head[j]);
                } else if j == h {
                    assert(ps[j] == url[0]);
                } else {
                    assert(ps[j] == tail[j - h - 1]);
                }
            }
            assert forall|j: int| 0 <= j < ps.len() - 1 implies !((#[trigger] ps[j]) is Text
                && ps[j + 1] is Text) by {
                if j < h {
                    assert(ps[j + 1] == url[0]);
                } else if j == h {
                    assert(ps[j] == url[0]);
                } else {
                    assert(ps[j] == tail[j - h - 1]);
                    assert(ps[j + 1] == tail[j - h]);
                }
            }
        },
    }
}

fn first_stop_exec(s: &[char]) -> (r: usize)
    ensures
        r == link_len(s@),
{
    let n = s.len();
    for i in 0..n
        invariant
            n == s@.len(),
            first_stop(s@.take(i as int)) is None,
    {
        assert(s@.take(i + 1).drop_last() =~= s@.take(i as int));
        let c = s[i];
        if is_whitespace(c) || c == '"' || c == '\'' || c == '<' || c == '>' || c == '，' || c
            == '。' {
            proof {
                lemma_first_stop_prefix(s@, i as int);
            }
            return i;
        }
    }
    assert(s@.take(n as int) =~= s@);
    n
}

proof fn lemma_first_stop_prefix(s: Seq<char>, k: int)
    requires
        0 <= k < s.len(),
        first_stop(s.take(k + 1)) == Some(k),
    ensures
        first_stop(s) == Some(k),
    decreases s.len(),
{
    if s.len() > k + 1 {
        assert(s.drop_last().take(k + 1) =~= s.take(k + 1));
        lemma_first_stop_prefix(s.drop_last(), k);
    } else {
        assert(s.take(k + 1) =~= s);
    }
}

/// Splits a notice text into text and links, as `spec_link_segments`
/// describes.
pub fn link_segments(text: &str) -> (r: Vec<LinkSegment>)
    ensures
        r@.map_values(|l: LinkSegment| link_v(l)) == spec_link_segments(text@),
{
    let t = chars_of(text);
    let n = t.len();
    let http = chars_of("http://");
    let https = chars_of("https://");
    let mut segments: Vec<LinkSegment> = Vec::new();
    let mut pos: usize = 0;
    assert(t@.skip(0) =~= t@);
    while pos < n
        invariant
            pos <= n,
            n == t@.len(),
            t@ == text@,
            http@ == "http://"@,
            https@ == "https://"@,
            spec_link_segments(text@) == segments@.map_values(|l: LinkSegment| link_v(l))
                + spec_link_segments(t@.skip(pos as int)),
        decreases n - pos,
    {
        let rest = sub_vec(t.as_slice(), pos, n);
        assert(rest@ =~= t@.skip(pos as int));
        let start = match find_chars(rest.as_slice(), http.as_slice(), 0) {
            Some(i) => Some(i),
            None => find_chars(rest.as_slice(), https.as_slice(), 0),
        };
        proof {
            lemma_url_start(rest@);
        }
        let ghost before = segments@.map_values(|l: LinkSegment| link_v(l));
        match start {
            None => {
                assert(rest@.len() > 0);
                segments.push(LinkSegment::Text(string_of(rest.as_slice())));
                assert(segments@.map_values(|l: LinkSegment| link_v(l)) =~= before + seq![
                    LinkV::Text(rest@),
                ]);
                pos = n;
                assert(t@.skip(n as int) =~= Seq::<char>::empty());
                assert(spec_link_segments(Seq::<char>::empty()) =~= Seq::<LinkV>::empty());
                assert(before + seq![LinkV::Text(rest@)] + Seq::<LinkV>::empty() =~= before + seq![
                    LinkV::Text(rest@),
                ]);
            },
            Some(i) => {
                let after = sub_vec(rest.as_slice(), i, rest.len());
                assert(after@ =~= rest@.skip(i as int));
                let end = first_stop_exec(after.as_slice());
                proof {
                    lemma_first_stop_bound(after@);
                    assert(after@[0] == 'h');
                    assert(end > 0);
                }
                if i > 0 {
                    segments.push(LinkSegment::Text(string_of(sub_vec(rest.as_slice(), 0, i).as_slice())));
                }
                let url = sub_vec(after.as_slice(), 0, end);
                segments.push(LinkSegment::Url(string_of(url.as_slice())));
                let ghost head = if i > 0 {
                    seq![LinkV::Text(rest@.take(i as int))]
                } else {
                    Seq::<LinkV>::empty()
                };
                assert(segments@.map_values(|l: LinkSegment| link_v(l)) =~= before + head + seq![
                    LinkV::Url(after@.take(end as int)),
                ]);
                assert(t@.skip(pos + i + end) =~= after@.skip(end as int));
                pos = pos + i + end;
                assert(before + (head + seq![LinkV::Url(after@.take(end as int))] + spec_link_segments(after@.skip(end as int))) =~= before + head + seq![
                    LinkV::Url(after@.take(end as int)),
                ] + spec_link_segments(after@.skip(end as int)));
            },
        }
    }
    assert(t@.skip(n as int) =~= Seq::<char>::empty());
    assert(spec_link_segments(Seq::<char>::empty()) =~= Seq::<LinkV>::empty());
    assert(segments@.map_values(|l: LinkSegment| link_v(l)) + Seq::<LinkV>::empty() =~= segments@.map_values(|l: LinkSegment| link_v(l)));
    segments
}

} // verus!
