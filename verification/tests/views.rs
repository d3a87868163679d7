use csac_client::frontend::{Message, UserProfile};
use csac_client::json::{Json, JsonNumber};
use csac_client::ui::ReportTarget;
use csac_client::views::{
    chat_send_step, friend_request_text, group_id_search, recover_directly, id_input, invite_code_text, member_permissions,
    message_shown, name_or_id, nickname_payload, or_placeholder, password_payload,
    profile_actions, report_payload, select_number, transfer_target, user_id_search, MessageBody,
    SendStep, answer_outcome, group_manage_load, group_manage_panels, mark_read_request,
    nickname_request, password_request, report_request, room_action_request, transfer_request,
    admin_button, mute_button, chat_loaded, chat_request, created_groups_from,
    handle_friend_request_request, home_data_from, join_application_lists, page_after_home_load,
    recover_friend_request, send_friend_request_request, user_detail_from, user_detail_target,
    app_step, AppEvent, AppState,
};
use csac_client::ui::Page;

fn compact(value: &Json) -> String {
    match value {
        Json::Null => "null".to_string(),
        Json::Bool(b) => b.to_string(),
        Json::Number(num) => num.text.clone(),
        Json::Str(t) => format!("\"{t}\""),
        Json::Array(items) => {
            let parts: Vec<String> = items.iter().map(compact).collect();
            format!("[{}]", parts.join(","))
        }
        Json::Object(members) => {
            let parts: Vec<String> =
                members.iter().map(|(k, v)| format!("\"{k}\":{}", compact(v))).collect();
            format!("{{{}}}", parts.join(","))
        }
    }
}

fn blank_message() -> Message {
    Message {
        id: 1,
        uid: None,
        from_uid: None,
        nickname: None,
        avatar: None,
        content: None,
        msg_type: None,
        image_url: None,
        voice_url: None,
        duration: None,
        voice_duration: None,
        add_time: None,
        created_at: None,
        can_recall: None,
        is_recalled: None,
        is_read: None,
        is_mentioned: None,
        reply_to_me: None,
    }
}

fn blank_profile(uid: i64) -> UserProfile {
    UserProfile {
        uid,
        username: None,
        nickname: None,
        avatar: None,
        remark: None,
        online_status: None,
        is_self: false,
        is_friend: false,
        request_sent: false,
        request_received: false,
        is_blocked: false,
        can_add_friend: false,
    }
}

#[test]
fn id_fields() {
    assert_eq!(id_input(" 42 "), 42);
    assert_eq!(id_input("4x"), 0);
    assert_eq!(id_input(""), 0);
    assert_eq!(id_input("-3"), -3);
    assert_eq!(select_number("4"), 4);
    assert_eq!(select_number(" 4"), 1);
    assert_eq!(select_number("x"), 1);
    assert_eq!(group_id_search(" 9 "), Ok(9));
    assert_eq!(group_id_search("0"), Err("请输入有效群组编号".to_string()));
    assert_eq!(group_id_search("abc"), Err("请输入有效群组编号".to_string()));
    assert_eq!(user_id_search("8", 7), Ok(8));
    assert_eq!(user_id_search("7", 7), Err("请输入有效用户 ID".to_string()));
    assert_eq!(user_id_search("-1", 7), Err("请输入有效用户 ID".to_string()));
    assert_eq!(transfer_target("12", 7), Ok(12));
    assert_eq!(transfer_target("7", 7), Err("请输入有效的接收人 UID".to_string()));
}

#[test]
fn account_forms() {
    assert_eq!(nickname_payload("   ").map(|j| compact(&j)), Err("显示名称不能为空".to_string()));
    assert_eq!(
        nickname_payload(" 小明 ").map(|j| compact(&j)),
        Ok("{\"action\":\"nickname\",\"nickname\":\"小明\"}".to_string())
    );
    assert_eq!(password_payload("a", "", "c").map(|j| compact(&j)), Err("请填写完整密码信息".to_string()));
    assert_eq!(
        password_payload(" a", "b", "c").map(|j| compact(&j)),
        Ok("{\"action\":\"password\",\"old_password\":\" a\",\"new_password\":\"b\",\"confirm_password\":\"c\"}".to_string())
    );
}

#[test]
fn report_forms() {
    let user = ReportTarget::User { uid: 3, username: "u".to_string(), nickname: "N".to_string() };
    assert_eq!(report_payload(&user, "  too short ", "0").map(|j| compact(&j)), Err("举报原因至少需要 10 个字符".to_string()));
    assert_eq!(
        report_payload(&user, " 这个用户一直在发送广告信息 ", "1").map(|j| compact(&j)),
        Ok("{\"type\":\"user\",\"uid\":3,\"username\":\"u\",\"nickname\":\"N\",\"reason\":\"这个用户一直在发送广告信息\",\"anonymous\":\"1\"}".to_string())
    );
    let group = ReportTarget::Group { room_id: 8, room_name: "G".to_string() };
    assert_eq!(
        report_payload(&group, "0123456789", "0").map(|j| compact(&j)),
        Ok("{\"type\":\"group\",\"rid\":8,\"room_name\":\"G\",\"reason\":\"0123456789\",\"anonymous\":\"0\"}".to_string())
    );
    assert!(report_payload(&group, "012345678", "0").is_err());
}

#[test]
fn page_texts() {
    assert_eq!(or_placeholder("  ", "暂无公告。"), "暂无公告。");
    assert_eq!(or_placeholder(" x ", "暂无公告。"), " x ");
    assert_eq!(name_or_id(None, "群组 ", 7), "群组 7");
    assert_eq!(name_or_id(Some("大厅".to_string()), "群组 ", 7), "大厅");
    assert_eq!(invite_code_text(true, "AB12"), "AB12");
    assert_eq!(invite_code_text(true, " "), "当前没有可显示的邀请码");
    assert_eq!(invite_code_text(false, "AB12"), "当前身份不可查看邀请码");
}

#[test]
fn manager_permissions() {
    assert_eq!(member_permissions(true, false, 1, 2, false), (true, true));
    assert_eq!(member_permissions(false, true, 1, 2, false), (true, false));
    assert_eq!(member_permissions(false, false, 1, 2, false), (false, false));
    assert_eq!(member_permissions(true, true, 1, 1, false), (false, false));
    assert_eq!(member_permissions(false, true, 1, 2, true), (false, false));
}

#[test]
fn profile_offers() {
    let mut p = blank_profile(5);
    p.is_friend = true;
    p.can_add_friend = true;
    let a = profile_actions(&p, 9);
    assert!(!a.is_self && a.chat && a.add && a.report);
    assert_eq!(a.nickname, "用户 5");
    let own = profile_actions(&p, 5);
    assert!(own.is_self && !own.chat && !own.add && !own.report);
    p.nickname = Some("Ann".to_string());
    p.is_self = true;
    let flagged = profile_actions(&p, 9);
    assert!(flagged.is_self);
    assert_eq!(flagged.nickname, "Ann");
}

#[test]
fn chat_messages_shown() {
    let mut m = blank_message();
    m.uid = Some(4);
    m.content = Some("你好".to_string());
    m.created_at = Some(100);
    let s = message_shown(&m, 9, "group");
    assert_eq!(s.sender, 4);
    assert!(!s.is_me);
    assert_eq!(s.sender_name, "用户 4");
    assert_eq!(s.time, "100");
    assert!(!s.alert);
    assert_eq!(s.read, None);
    assert!(matches!(s.body, MessageBody::Text(ref t) if t == "你好"));

    m.from_uid = Some(9);
    m.is_read = Some(1);
    m.reply_to_me = Some(true);
    let mine = message_shown(&m, 9, "private");
    assert!(mine.is_me);
    assert_eq!(mine.sender_name, "我");
    assert!(mine.alert);
    assert_eq!(mine.read, Some(true));

    m.content = Some("/upload/p.PNG".to_string());
    let img = message_shown(&m, 9, "private");
    assert!(matches!(img.body, MessageBody::Image(ref u) if u == "https://cschat.ccccocccc.cc/upload/p.PNG"));

    m.is_recalled = Some(1);
    let gone = message_shown(&m, 9, "private");
    assert!(matches!(gone.body, MessageBody::Recalled));
    assert_eq!(gone.read, None);
}

#[test]
fn chat_voice_and_images() {
    let mut v = blank_message();
    v.msg_type = Some(3);
    v.voice_duration = Some(-4);
    v.nickname = Some("Bo".to_string());
    let s = message_shown(&v, 1, "group");
    assert_eq!(s.sender, 0);
    assert_eq!(s.sender_name, "Bo");
    assert!(matches!(s.body, MessageBody::Voice(0, ref u) if u.is_empty()));
    v.voice_url = Some("upload/v.webm".to_string());
    v.duration = Some(7);
    let t = message_shown(&v, 1, "group");
    assert!(matches!(t.body, MessageBody::Voice(7, ref u) if u == "https://cschat.ccccocccc.cc/upload/v.webm"));
    let mut i = blank_message();
    i.msg_type = Some(2);
    i.image_url = Some("  ".to_string());
    let shown = message_shown(&i, 1, "group");
    assert!(matches!(shown.body, MessageBody::Image(ref u) if u.is_empty()));
}

#[test]
fn chat_send_steps() {
    assert!(matches!(chat_send_step("group", 3, "  ", false, false), SendStep::Nothing));
    assert!(matches!(chat_send_step("group", 3, "", true, true), SendStep::Refused(ref m) if m == "图片和语音请分开发送"));
    assert!(matches!(chat_send_step("group", 3, "hi", true, false), SendStep::Image));
    assert!(matches!(chat_send_step("private", 3, "", false, true), SendStep::Voice));
    match chat_send_step("group", 3, " hi ", false, false) {
        SendStep::Text(p, j) => {
            assert_eq!(p, "/message/send_group_msg");
            assert_eq!(compact(&j), "{\"room_id\":3,\"content\":\" hi \"}");
        }
        _ => panic!("expected a text message"),
    }
    match chat_send_step("private", 4, "yo", false, false) {
        SendStep::Text(p, j) => {
            assert_eq!(p, "/message/send_private_msg");
            assert_eq!(compact(&j), "{\"friend_id\":4,\"content\":\"yo\"}");
        }
        _ => panic!("expected a text message"),
    }
}

#[test]
fn friend_notice_lines() {
    assert_eq!(friend_request_text(Some("hi".to_string()), Some(2)), "hi");
    assert_eq!(friend_request_text(None, Some(2)), "请求恢复好友关系");
    assert_eq!(friend_request_text(None, None), "请求添加好友");
    assert!(recover_directly(Some(5), 5));
    assert!(!recover_directly(Some(5), 6));
    assert!(recover_directly(None, 0));
}

fn jstr(t: &str) -> Json {
    Json::Str(t.to_string())
}

fn jnum(v: i64) -> Json {
    Json::Number(JsonNumber { int: Some(v), text: v.to_string() })
}

fn jobj(members: Vec<(&str, Json)>) -> Json {
    Json::Object(members.into_iter().map(|(k, v)| (k.to_string(), v)).collect())
}

#[test]
fn account_requests() {
    assert_eq!(password_request("", "b", "c").err(), Some("请填写完整密码信息".to_string()));
    let q = password_request("a", "b", "c").unwrap();
    assert_eq!(q.path, "/user/update_profile");
    assert_eq!(compact(&q.params), "{\"action\":\"password\",\"old_password\":\"a\",\"new_password\":\"b\",\"confirm_password\":\"c\"}");
    assert_eq!(q.done, "密码已更新为 SHA-256 存储");
    assert_eq!(q.failed, "密码修改失败");
    let ok = jobj(vec![("success", Json::Bool(true))]);
    assert_eq!(answer_outcome(&q, &ok), (true, "密码已更新为 SHA-256 存储".to_string()));
    let bad = jobj(vec![("success", Json::Bool(false)), ("message", jstr("旧密码错误"))]);
    assert_eq!(answer_outcome(&q, &bad), (false, "旧密码错误".to_string()));
    assert_eq!(answer_outcome(&q, &jobj(vec![])), (false, "密码修改失败".to_string()));
    let n = nickname_request(" 阿明 ").unwrap();
    assert_eq!(n.path, "/user/update_profile");
    assert_eq!(compact(&n.params), "{\"action\":\"nickname\",\"nickname\":\"阿明\"}");
    assert_eq!(n.failed, "显示名称更新失败");
    assert_eq!(nickname_request(" ").err(), Some("显示名称不能为空".to_string()));
}

#[test]
fn report_and_read_requests() {
    let g = ReportTarget::Group { room_id: 8, room_name: "G".to_string() };
    let q = report_request(&g, "0123456789", "1").unwrap();
    assert_eq!(q.path, "/report/submit_report");
    assert_eq!(q.done, "举报已提交");
    assert_eq!(q.failed, "举报提交失败");
    assert_eq!(report_request(&g, "short", "1").err(), Some("举报原因至少需要 10 个字符".to_string()));
    let data = jobj(vec![("messages", Json::Array(vec![jobj(vec![("id", jnum(5))])]))]);
    let (p, j) = mark_read_request("group", 2, &data).unwrap();
    assert_eq!(p, "/message/mark_read");
    assert_eq!(compact(&j), "{\"room_id\":2,\"last_msg_id\":5}");
    assert!(mark_read_request("group", 2, &Json::Null).is_none());
    let (p, j) = mark_read_request("private", 6, &Json::Null).unwrap();
    assert_eq!(p, "/message/mark_read");
    assert_eq!(compact(&j), "{\"friend_id\":6}");
}

#[test]
fn group_page_panels_and_actions() {
    let owner = group_manage_panels(true, false);
    assert!(owner.edit_info && owner.join_settings && owner.reset_invite && !owner.applications && owner.owner_actions);
    let admin = group_manage_panels(false, true);
    assert!(admin.edit_info && admin.join_settings && !admin.reset_invite && admin.applications && !admin.owner_actions);
    let member = group_manage_panels(false, false);
    assert!(!member.edit_info && !member.join_settings && !member.reset_invite && !member.applications && !member.owner_actions);
    assert_eq!(mute_button(true), ("unmute", "解禁"));
    assert_eq!(mute_button(false), ("mute", "禁言"));
    assert_eq!(admin_button(true), ("remove", "撤销管理"));
    assert_eq!(admin_button(false), ("set", "设为管理"));
    let t = transfer_request(4, " 9 ", 1).unwrap();
    assert_eq!(t.path, "/group/transfer");
    assert_eq!(compact(&t.params), "{\"room_id\":4,\"target_uid\":9}");
    assert_eq!(t.done, "群组转让申请已发送");
    assert_eq!(transfer_request(4, "1", 1).err(), Some("请输入有效的接收人 UID".to_string()));
    let d = room_action_request(4, true);
    assert_eq!((d.path.as_str(), compact(&d.params)), ("/group/disband", "{\"room_id\":4}".to_string()));
    let r = room_action_request(4, false);
    assert_eq!((r.path.as_str(), r.done.as_str()), ("/group/reset_invite_code", "邀请码已重置"));
}

#[test]
fn group_page_loading() {
    let info = Ok(jobj(vec![
        ("success", Json::Bool(true)),
        ("room", jobj(vec![("room_name", jstr("R"))])),
        ("is_owner", Json::Bool(true)),
        ("is_admin", jstr("true")),
    ]));
    let members = Ok(jobj(vec![("success", Json::Bool(true)), ("members", Json::Array(vec![]))]));
    let apps = Ok(jobj(vec![("success", Json::Bool(false)), ("message", jstr("无权限"))]));
    let page = group_manage_load(&info, &members, &apps).unwrap();
    assert_eq!(page.room.map(compact), Some("{\"room_name\":\"R\"}".to_string()));
    assert_eq!(page.members.map(compact), Some("[]".to_string()));
    assert!(page.applications.0.is_none());
    assert_eq!(page.application_error, Some("无权限".to_string()));
    assert!(page.is_owner && !page.is_admin && !page.is_in_group && !page.can_view_invite);
    let apps_ok = Ok(jobj(vec![("code", jnum(0)), ("applies", Json::Array(vec![jnum(1)]))]));
    let failed_members: Result<Json, String> = Err("timeout".to_string());
    let page = group_manage_load(&info, &failed_members, &apps_ok).unwrap();
    assert!(page.members.is_none());
    assert!(page.applications.0.is_none());
    assert_eq!(page.applications.1.map(compact), Some("[1]".to_string()));
    assert_eq!(page.application_error, None);
    let down: Result<Json, String> = Err("down".to_string());
    assert_eq!(group_manage_load(&down, &members, &apps).err(), Some("down".to_string()));
    let refused = Ok(jobj(vec![("success", Json::Bool(false))]));
    assert_eq!(group_manage_load(&refused, &members, &apps).err(), Some("群组资料加载失败".to_string()));
    let apps_err: Result<Json, String> = Err("lost".to_string());
    let page = group_manage_load(&info, &members, &apps_err).unwrap();
    assert_eq!(page.application_error, Some("lost".to_string()));
}

#[test]
fn application_lists_joined() {
    assert_eq!(join_application_lists(vec![1, 2], vec![], vec![3]), vec![1, 2, 3]);
    assert_eq!(join_application_lists(vec!["a"], vec!["b"], vec!["c"]), vec!["a", "b", "c"]);
    assert!(join_application_lists::<u8>(vec![], vec![], vec![]).is_empty());
}

#[test]
fn home_page_loading() {
    let ok = |members: Vec<(&str, Json)>| -> Result<Json, String> {
        let mut all = vec![("success", Json::Bool(true))];
        all.extend(members);
        Ok(jobj(all))
    };
    let info = ok(vec![("user", jobj(vec![("uid", jnum(3))]))]);
    let friends = ok(vec![("friends", Json::Array(vec![jnum(1)]))]);
    let groups = ok(vec![("groups", Json::Array(vec![jobj(vec![("room_id", jnum(0))]), jobj(vec![("id", jnum(5))])]))]);
    let notes = ok(vec![("total_unread", jnum(4))]);
    let lost: Result<Json, String> = Err("timeout".to_string());
    let page = home_data_from(&info, &friends, &groups, &notes, &lost, &lost).unwrap();
    assert_eq!(page.user.map(compact), Some("{\"uid\":3}".to_string()));
    assert_eq!(page.friends.map(compact), Some("[1]".to_string()));
    assert_eq!(page.groups.iter().map(|g| g.room_id).collect::<Vec<_>>(), vec![5]);
    assert!(page.requests.is_none() && page.deleted.is_none());
    assert_eq!(page.total_unread, 4);
    let text_unread = ok(vec![("total_unread", jstr("4"))]);
    let page = home_data_from(&info, &lost, &lost, &text_unread, &lost, &lost).unwrap();
    assert_eq!(page.total_unread, 0);
    assert!(page.groups.is_empty());
    let out = Ok(jobj(vec![("success", Json::Bool(false))]));
    assert_eq!(home_data_from(&out, &lost, &lost, &lost, &lost, &lost).err(), Some("请先登录".to_string()));
    assert_eq!(home_data_from(&lost, &lost, &lost, &lost, &lost, &lost).err(), Some("timeout".to_string()));
    assert!(matches!(page_after_home_load(true, true), Some(Page::Home)));
    assert!(page_after_home_load(true, false).is_none());
    assert!(matches!(page_after_home_load(false, true), Some(Page::Login)));
}

#[test]
fn profile_loading() {
    assert_eq!(user_detail_target(3), Ok(3));
    assert_eq!(user_detail_target(0), Err("无效的用户 ID".to_string()));
    let info = Ok(jobj(vec![("success", Json::Bool(true)), ("user", jobj(vec![("uid", jnum(9))]))]));
    assert_eq!(user_detail_from(&info).map(compact), Ok("{\"uid\":9}".to_string()));
    let bare = Ok(jobj(vec![("success", Json::Bool(true))]));
    assert_eq!(user_detail_from(&bare).map(compact), Err("用户资料响应缺少 user 字段".to_string()));
    let no = Ok(jobj(vec![("success", Json::Bool(false))]));
    assert_eq!(user_detail_from(&no).map(compact), Err("用户资料加载失败".to_string()));
    let groups = Ok(jobj(vec![("success", Json::Bool(true)), ("groups", Json::Array(vec![jobj(vec![("rid", jnum(2))])]))]));
    assert_eq!(created_groups_from(&groups).len(), 1);
    assert!(created_groups_from(&no).is_empty());
}

#[test]
fn chat_loading() {
    let (p, j) = chat_request("group", 4);
    assert_eq!((p.as_str(), compact(&j)), ("/message/get_group_msg", "{\"room_id\":4}".to_string()));
    let (p, j) = chat_request("private", 4);
    assert_eq!((p.as_str(), compact(&j)), ("/message/get_private_msg", "{\"friend_id\":4,\"last_id\":0}".to_string()));
    let ok = Ok(jobj(vec![("success", Json::Bool(true)), ("messages", Json::Array(vec![]))]));
    assert_eq!(chat_loaded(&ok).map(|m| m.map(compact)), Ok(Some("[]".to_string())));
    let no = Ok(jobj(vec![("success", Json::Bool(false))]));
    assert_eq!(chat_loaded(&no).map(|m| m.map(compact)), Err("消息加载失败".to_string()));
}

#[test]
fn friend_requests() {
    let h = handle_friend_request_request(7, "agree");
    assert_eq!((h.path.as_str(), compact(&h.params)), ("/friend/handle_request", "{\"request_id\":7,\"action\":\"agree\"}".to_string()));
    assert_eq!((h.done.as_str(), h.failed.as_str()), ("已处理好友请求", "处理失败"));
    let s = send_friend_request_request(5);
    assert_eq!((s.path.as_str(), compact(&s.params)), ("/friend/send_request", "{\"to_uid\":5,\"message\":\"请求添加你为好友\"}".to_string()));
    assert_eq!(s.failed, "好友请求发送失败");
    let r = recover_friend_request(6, true);
    assert_eq!((r.path.as_str(), r.done.as_str(), r.failed.as_str()), ("/friend/recover_friend", "已提交恢复请求", "恢复失败"));
}

fn state(page: Page, signed_in: bool, status: &str) -> AppState {
    AppState { page, signed_in, status: status.to_string() }
}

#[test]
fn root_steps() {
    let r = app_step(state(Page::About, true, "x"), AppEvent::Refresh(true));
    assert!(matches!(r.page, Page::Home) && r.signed_in && r.status.is_empty());
    let r = app_step(state(Page::Login, false, "x"), AppEvent::Refresh(true));
    assert!(matches!(r.page, Page::Login) && !r.signed_in && r.status == "x");
    let r = app_step(state(Page::About, false, "x"), AppEvent::HomeLoaded(false, Ok(())));
    assert!(matches!(r.page, Page::About) && r.signed_in && r.status.is_empty());
    let r = app_step(state(Page::About, false, "x"), AppEvent::HomeLoaded(true, Ok(())));
    assert!(matches!(r.page, Page::Home));
    let r = app_step(state(Page::Home, true, ""), AppEvent::HomeLoaded(true, Err("请先登录".to_string())));
    assert!(matches!(r.page, Page::Login) && !r.signed_in && r.status == "请先登录");
    let r = app_step(state(Page::Home, true, ""), AppEvent::LoggedOut);
    assert!(matches!(r.page, Page::Login) && !r.signed_in && r.status == "已退出登录");
    let r = app_step(state(Page::Home, true, "s"), AppEvent::OpenUserDetail(5));
    assert!(matches!(r.page, Page::UserDetail(5)) && r.status == "s");
    let r = app_step(state(Page::Home, true, "s"), AppEvent::OpenUserDetail(0));
    assert!(matches!(r.page, Page::Home) && r.status == "无效的用户 ID");
    let r = app_step(state(Page::Home, true, "s"), AppEvent::OpenPlain(Page::Account));
    assert!(matches!(r.page, Page::Account) && r.signed_in && r.status.is_empty());
}
