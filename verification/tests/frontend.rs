use csac_client::actions::{
    apply_join_payload, data_url_payload, edit_group_info_payload, group_settings_payload,
    member_action_request, public_group_detail_step, recover_friend_payload, DetailStep,
};
use csac_client::frontend::{
    friend_state_text, get_first, group_from_value, group_list_from_field, group_manage_names,
    group_search_result, is_success, GroupSearchResult, mark_read_params, message_of, message_time,
    parse_group_vec, public_group_empty_message, public_group_list, user_profile_state_text,
    user_search_result, value_at_path, value_to_bool, value_to_i64, value_to_string, Message,
    UserProfile, UserSearchResult,
};
use csac_client::json::{Json, JsonNumber};
use csac_client::ui::{
    absolute_media, group_join_button_text, group_join_state_text, join_type_text,
    link_segments, looks_like_media_path, mute_text, page_subtitle, page_title,
    report_target_display, role_text, strip_html, switch_text, LinkSegment, Page, ReportTarget,
};

fn text(t: &str) -> Json {
    Json::Str(t.to_string())
}

fn num(v: i64) -> Json {
    Json::Number(JsonNumber { int: Some(v), text: v.to_string() })
}

fn object(members: Vec<(&str, Json)>) -> Json {
    Json::Object(members.into_iter().map(|(k, v)| (k.to_string(), v)).collect())
}

fn to_text(value: &Json) -> String {
    match value {
        Json::Null => "null".to_string(),
        Json::Bool(b) => b.to_string(),
        Json::Number(num) => num.text.clone(),
        Json::Str(t) => format!("\"{t}\""),
        Json::Array(items) => {
            let parts: Vec<String> = items.iter().map(to_text).collect();
            format!("[{}]", parts.join(","))
        }
        Json::Object(members) => {
            let parts: Vec<String> =
                members.iter().map(|(k, v)| format!("\"{k}\":{}", to_text(v))).collect();
            format!("{{{}}}", parts.join(","))
        }
    }
}

fn profile() -> UserProfile {
    UserProfile {
        uid: 1,
        username: None,
        nickname: None,
        avatar: None,
        remark: None,
        online_status: None,
        is_self: false,
        is_friend: false,
        request_sent: false,
        request_received: false,
        is_blocked: false,
        can_add_friend: false,
    }
}

fn message() -> Message {
    Message {
        id: 1,
        uid: None,
        from_uid: None,
        nickname: None,
        avatar: None,
        content: None,
        msg_type: None,
        image_url: None,
        voice_url: None,
        duration: None,
        voice_duration: None,
        add_time: None,
        created_at: None,
        can_recall: None,
        is_recalled: None,
        is_read: None,
        is_mentioned: None,
        reply_to_me: None,
    }
}

#[test]
fn loose_readers() {
    assert_eq!(value_to_i64(&text("15")), Some(15));
    assert_eq!(value_to_i64(&text(" 15")), None);
    assert_eq!(value_to_i64(&Json::Bool(false)), Some(0));
    assert_eq!(value_to_i64(&Json::Null), None);
    assert_eq!(value_to_bool(&text(" OK ")), Some(true));
    assert_eq!(value_to_bool(&num(0)), Some(false));
    assert_eq!(value_to_string(&num(-4)), Some("-4".to_string()));
    assert_eq!(value_to_string(&Json::Bool(true)), Some("1".to_string()));
    assert_eq!(value_to_string(&Json::Null), None);
    assert_eq!(value_to_string(&Json::Array(vec![])), None);
    let v = object(vec![("name", text("a")), ("title", text("b"))]);
    assert_eq!(get_first(&v, &["title", "name"]).map(to_text), Some("\"b\"".to_string()));
    assert!(get_first(&v, &["x"]).is_none());
    let nested = object(vec![("data", object(vec![("list", num(3))]))]);
    assert_eq!(value_at_path(&nested, &["data", "list"]).map(to_text), Some("3".to_string()));
    assert!(value_at_path(&nested, &["data", "rooms"]).is_none());
    assert_eq!(value_at_path(&nested, &[]).map(to_text), Some(to_text(&nested)));
}

#[test]
fn success_rules() {
    assert!(is_success(&object(vec![("success", Json::Bool(true))])));
    assert!(!is_success(&object(vec![("success", text("0")), ("code", num(0))])));
    assert!(is_success(&object(vec![("ok", text("yes"))])));
    assert!(is_success(&object(vec![("code", text("200"))])));
    assert!(!is_success(&object(vec![("code", text(" 200"))])));
    assert!(!is_success(&text("success")));
}

#[test]
fn messages_with_attempts() {
    let data = object(vec![
        ("message", text("失败")),
        (
            "attempts",
            Json::Array(vec![
                object(vec![("endpoint", text("e1")), ("status", num(500)), ("message", text("m1"))]),
                object(vec![("endpoint", text("e2")), ("status", num(401))]),
                object(vec![("status", num(200))]),
            ]),
        ),
    ]);
    assert_eq!(message_of(&data, "x"), "失败。尝试过：401 e2: 请求失败 | 500 e1: m1");
    assert_eq!(message_of(&object(vec![("message", text("  "))]), "备用"), "备用");
    assert_eq!(message_of(&object(vec![("message", text("a")), ("attempts", Json::Array(vec![]))]), "b"), "a");
    let four = object(vec![(
        "attempts",
        Json::Array(vec![
            object(vec![("endpoint", text("a")), ("status", num(1))]),
            object(vec![("endpoint", text("b")), ("status", num(2))]),
            object(vec![("endpoint", text("c")), ("status", text("3"))]),
            object(vec![("endpoint", text("d")), ("status", num(4))]),
        ]),
    )]);
    assert_eq!(message_of(&four, "f"), "f。尝试过：4 d: 请求失败 | 0 c: 请求失败 | 2 b: 请求失败");
}

#[test]
fn empty_public_group_messages() {
    let ok = object(vec![("success", Json::Bool(true)), ("endpoint", text("u"))]);
    assert_eq!(public_group_empty_message(&ok), "公开群组接口返回成功，但列表为空。最终来源：u");
    let failed = object(vec![("success", Json::Bool(false)), ("endpoint", text(" "))]);
    assert_eq!(public_group_empty_message(&failed), "没有读取到公开群组");
}

#[test]
fn user_search_reading() {
    let data = object(vec![(
        "user",
        object(vec![
            ("uid", num(5)),
            ("username", text("bob")),
            ("is_friend", Json::Bool(true)),
            ("can_add_friend", text("true")),
        ]),
    )]);
    let u = user_search_result(&data).unwrap();
    assert_eq!(u.uid, 5);
    assert_eq!(u.username, "bob");
    assert_eq!(u.nickname, "未命名用户");
    assert_eq!(u.avatar, None);
    assert!(u.is_friend);
    assert!(!u.can_add_friend);
    assert_eq!(friend_state_text(&u), "已经是好友，可在好友列表进入私聊");
    assert!(user_search_result(&object(vec![("x", num(1))])).is_none());
    let strings = object(vec![("user", object(vec![("uid", text("5"))]))]);
    assert_eq!(user_search_result(&strings).unwrap().uid, 0);
}

#[test]
fn friend_states() {
    let mut u = UserSearchResult {
        uid: 1,
        username: String::new(),
        nickname: String::new(),
        avatar: None,
        is_friend: false,
        request_sent: false,
        request_received: true,
        can_add_friend: true,
    };
    assert_eq!(friend_state_text(&u), "对方已发来好友请求，请在好友通知中处理");
    u.request_sent = true;
    assert_eq!(friend_state_text(&u), "好友请求已发送，等待对方确认");
    u.request_sent = false;
    u.request_received = false;
    assert_eq!(friend_state_text(&u), "可以发送好友请求");
    u.can_add_friend = false;
    assert_eq!(friend_state_text(&u), "暂时无法添加");
}

#[test]
fn profile_states() {
    let mut p = profile();
    assert_eq!(user_profile_state_text(&p), "暂时无法添加");
    p.can_add_friend = true;
    assert_eq!(user_profile_state_text(&p), "可以发送好友请求");
    p.is_blocked = true;
    assert_eq!(user_profile_state_text(&p), "当前无法添加");
    p.request_received = true;
    assert_eq!(user_profile_state_text(&p), "对方已发来好友请求");
    p.request_sent = true;
    assert_eq!(user_profile_state_text(&p), "好友请求已发送");
    p.is_friend = true;
    assert_eq!(user_profile_state_text(&p), "已经是好友");
    p.is_self = true;
    assert_eq!(user_profile_state_text(&p), "这是你自己的账号");
}

#[test]
fn groups_from_values() {
    let g = group_from_value(&object(vec![
        ("id", text("12")),
        ("name", text(" ")),
        ("join_type", num(0)),
        ("description", text("hi")),
        ("is_in_group", text("yes")),
    ]))
    .unwrap();
    assert_eq!(g.room_id, 12);
    assert_eq!(g.room_name, None);
    assert_eq!(g.join_type, 1);
    assert_eq!(g.intro, Some("hi".to_string()));
    assert!(g.is_in_group);
    assert!(!g.has_apply);
    let h = group_from_value(&object(vec![("roomId", num(3)), ("title", text("T")), ("join_type", num(4))])).unwrap();
    assert_eq!(h.room_id, 3);
    assert_eq!(h.room_name, Some("T".to_string()));
    assert_eq!(h.join_type, 4);
    assert!(group_from_value(&object(vec![("name", text("x"))])).is_none());
    assert!(group_from_value(&text("x")).is_none());
}

#[test]
fn group_lists() {
    assert!(parse_group_vec(&object(vec![])).is_none());
    let arr = Json::Array(vec![object(vec![("room_id", num(0))]), object(vec![("x", num(1))]), object(vec![("room_id", num(3))])]);
    let all = parse_group_vec(&arr).unwrap();
    assert_eq!(all.iter().map(|g| g.room_id).collect::<Vec<_>>(), vec![0, 3]);
    let data = object(vec![("groups", arr)]);
    let kept = group_list_from_field(&data, "groups");
    assert_eq!(kept.iter().map(|g| g.room_id).collect::<Vec<_>>(), vec![3]);
    assert!(group_list_from_field(&data, "rooms").is_empty());
}

#[test]
fn public_groups_found() {
    let nested = object(vec![(
        "data",
        object(vec![("rooms", Json::Array(vec![object(vec![("rid", num(4)), ("title", text("T"))])]))]),
    )]);
    let groups = public_group_list(&nested);
    assert_eq!(groups.len(), 1);
    assert_eq!(groups[0].room_id, 4);
    assert_eq!(groups[0].room_name, Some("T".to_string()));
    let top = Json::Array(vec![object(vec![("id", num(-1))]), object(vec![("id", num(2))])]);
    assert_eq!(public_group_list(&top).iter().map(|g| g.room_id).collect::<Vec<_>>(), vec![2]);
    let list_first = object(vec![
        ("list", Json::Array(vec![object(vec![("id", num(7))])])),
        ("data", Json::Array(vec![object(vec![("id", num(8))])])),
    ]);
    assert_eq!(public_group_list(&list_first)[0].room_id, 7);
    assert!(public_group_list(&object(vec![("groups", text("none"))])).is_empty());
}

#[test]
fn group_search_reading() {
    let data = object(vec![
        (
            "data",
            object(vec![(
                "group",
                object(vec![("group_id", text("9")), ("title", text("G")), ("join_type", text("4"))]),
            )]),
        ),
        ("is_in_group", text("1")),
    ]);
    let g = group_search_result(&data).unwrap();
    assert_eq!(g.room_id, 9);
    assert_eq!(g.room_name, "G");
    assert_eq!(g.intro, "");
    assert_eq!(g.notice, "");
    assert_eq!(g.owner_name, "未知");
    assert_eq!(g.join_type, 4);
    assert_eq!(g.ask_question, "");
    assert!(g.is_in_group);
    assert!(!g.has_apply);
    let plain = object(vec![("room", object(vec![("question", num(5)), ("has_apply", Json::Bool(true))]))]);
    let p = group_search_result(&plain).unwrap();
    assert_eq!(p.room_id, 0);
    assert_eq!(p.room_name, "未命名群组");
    assert_eq!(p.join_type, 1);
    assert_eq!(p.ask_question, "5");
    assert!(p.has_apply);
    assert!(group_search_result(&object(vec![])).is_none());
}

#[test]
fn message_times() {
    let mut m = message();
    assert_eq!(message_time(&m), "");
    m.created_at = Some(-3);
    assert_eq!(message_time(&m), "-3");
    m.add_time = Some("12:00".to_string());
    assert_eq!(message_time(&m), "12:00");
}

#[test]
fn mark_read_requests() {
    let msgs = object(vec![("messages", Json::Array(vec![object(vec![("id", num(1))]), object(vec![("id", num(9))])]))]);
    assert_eq!(mark_read_params("group", 3, &msgs).map(|j| to_text(&j)), Some("{\"room_id\":3,\"last_msg_id\":9}".to_string()));
    let text_id = object(vec![("messages", Json::Array(vec![object(vec![("id", text("9"))])]))]);
    assert!(mark_read_params("group", 3, &text_id).is_none());
    assert!(mark_read_params("group", 3, &object(vec![("messages", Json::Array(vec![]))])).is_none());
    assert_eq!(mark_read_params("private", 4, &Json::Null).map(|j| to_text(&j)), Some("{\"friend_id\":4}".to_string()));
}

#[test]
fn group_manage_name_defaults() {
    assert_eq!(
        group_manage_names(" ".to_string(), "".to_string(), "打开时的名字".to_string()),
        ("打开时的名字".to_string(), "未知".to_string())
    );
    assert_eq!(
        group_manage_names("群".to_string(), "主".to_string(), "x".to_string()),
        ("群".to_string(), "主".to_string())
    );
}

#[test]
fn small_texts() {
    assert_eq!(role_text(true, true), "群主");
    assert_eq!(role_text(false, true), "管理员");
    assert_eq!(role_text(false, false), "成员");
    assert_eq!(switch_text(0), "关闭");
    assert_eq!(switch_text(-1), "开启");
    assert_eq!(join_type_text(1), "直接加入");
    assert_eq!(join_type_text(2), "自动轮换邀请码");
    assert_eq!(join_type_text(3), "固定邀请码");
    assert_eq!(join_type_text(4), "问答审核");
    assert_eq!(join_type_text(9), "未知规则");
    assert_eq!(group_join_button_text(2), "用邀请码加入");
    assert_eq!(group_join_button_text(3), "用邀请码加入");
    assert_eq!(group_join_button_text(4), "提交答案");
    assert_eq!(group_join_button_text(1), "加入群组");
    assert_eq!(group_join_state_text(true, true, 4), "已加入");
    assert_eq!(group_join_state_text(false, true, 4), "等待审核");
    assert_eq!(group_join_state_text(false, false, 1), "可直接加入");
    assert_eq!(group_join_state_text(false, false, 3), "需要邀请码");
    assert_eq!(group_join_state_text(false, false, 4), "需要回答问题");
    assert_eq!(group_join_state_text(false, false, 0), "可申请加入");
    assert_eq!(mute_text(5, true), "禁言至 5");
    assert_eq!(mute_text(0, true), "禁言中");
    assert_eq!(mute_text(5, false), "可发言");
}

#[test]
fn report_targets_shown() {
    let u = ReportTarget::User { uid: 42, username: "bob".to_string(), nickname: "Bob".to_string() };
    assert_eq!(
        report_target_display(&u),
        ("被举报对象：用户", "Bob".to_string(), "@bob · UID 42".to_string())
    );
    let anon = ReportTarget::User { uid: 7, username: " ".to_string(), nickname: "N".to_string() };
    assert_eq!(report_target_display(&anon).2, "UID 7");
    let g = ReportTarget::Group { room_id: 5, room_name: "R".to_string() };
    assert_eq!(report_target_display(&g), ("被举报对象：群组", "R".to_string(), "群组 ID 5".to_string()));
}

#[test]
fn page_titles() {
    assert_eq!(page_title(&Page::Login), "登录");
    assert_eq!(page_title(&Page::Home), "工作台");
    assert_eq!(page_title(&Page::UserDetail(3)), "用户详情");
    assert_eq!(page_title(&Page::GroupChat(1, "大厅".to_string())), "大厅");
    assert_eq!(page_title(&Page::PrivateChat(1, "Ann".to_string())), "Ann");
    assert_eq!(page_subtitle(&Page::Register), "连接到 UniCsAC 统一聊天服务");
    assert_eq!(page_subtitle(&Page::GroupManage(1, "x".to_string())), "群组资料、成员和权限设置");
    assert_eq!(page_subtitle(&Page::PrivateChat(1, "x".to_string())), "私聊消息");
    let report = Page::Report(ReportTarget::Group { room_id: 1, room_name: String::new() });
    assert_eq!(page_title(&report), "举报中心");
    assert_eq!(page_subtitle(&report), "向网站管理员提交用户或群组举报");
}

#[test]
fn media_paths() {
    assert_eq!(absolute_media("/upload/a.png".to_string()), "https://cschat.ccccocccc.cc/upload/a.png");
    assert_eq!(absolute_media("//x.png".to_string()), "https://cschat.ccccocccc.cc/x.png");
    assert_eq!(absolute_media("https://h/a.png".to_string()), "https://h/a.png");
    assert_eq!(absolute_media(String::new()), "");
    assert!(looks_like_media_path(" Upload/A.PNG "));
    assert!(looks_like_media_path("/uploads/x.gif"));
    assert!(looks_like_media_path("https://h/y.webp"));
    assert!(!looks_like_media_path("upload/x.txt"));
    assert!(!looks_like_media_path("[图片]"));
    assert!(!looks_like_media_path("ftp://x.png"));
    assert!(!looks_like_media_path("upload/png"));
    assert!(!looks_like_media_path(""));
}

#[test]
fn html_stripped() {
    assert_eq!(strip_html("<b>hi</b> there"), "hi there");
    assert_eq!(strip_html("a < b"), "a ");
    assert_eq!(strip_html("x > y"), "x  y");
}

fn segments(t: &str) -> Vec<String> {
    link_segments(t)
        .into_iter()
        .map(|s| match s {
            LinkSegment::Text(v) => format!("T:{v}"),
            LinkSegment::Url(v) => format!("U:{v}"),
        })
        .collect()
}

#[test]
fn links_split() {
    assert_eq!(segments("见 https://a.b/c。谢谢"), vec!["T:见 ", "U:https://a.b/c", "T:。谢谢"]);
    assert_eq!(segments("http://x y"), vec!["U:http://x", "T: y"]);
    assert_eq!(
        segments("see https://a.b and http://c.d"),
        vec!["T:see https://a.b and ", "U:http://c.d"]
    );
    assert_eq!(segments("<a href=\"http://q\">"), vec!["T:<a href=\"", "U:http://q", "T:\">"]);
    assert!(segments("").is_empty());
    assert_eq!(segments("plain"), vec!["T:plain"]);
}

#[test]
fn join_payloads() {
    let shown = |r: Result<Json, String>| r.map(|j| to_text(&j));
    assert_eq!(shown(apply_join_payload(5, 1, " x ", " y ")), Ok("{\"room_id\":5}".to_string()));
    assert_eq!(shown(apply_join_payload(5, 2, " c1 ", "")), Ok("{\"room_id\":5,\"code\":\"c1\"}".to_string()));
    assert_eq!(shown(apply_join_payload(5, 3, "  ", "")), Err("请输入邀请码".to_string()));
    assert_eq!(shown(apply_join_payload(5, 4, "", " 答 ")), Ok("{\"room_id\":5,\"answer\":\"答\"}".to_string()));
    assert_eq!(shown(apply_join_payload(5, 4, "", "")), Ok("{\"room_id\":5,\"answer\":\"\"}".to_string()));
}

#[test]
fn group_info_payloads() {
    let shown = |r: Result<Json, String>| r.map(|j| to_text(&j));
    assert_eq!(shown(edit_group_info_payload(2, "name", "  ")), Err("群组名称不能为空".to_string()));
    assert_eq!(
        shown(edit_group_info_payload(2, "notice", "  ")),
        Ok("{\"room_id\":2,\"action\":\"notice\",\"value\":\"  \"}".to_string())
    );
    assert_eq!(
        shown(edit_group_info_payload(2, "name", " 新名 ")),
        Ok("{\"room_id\":2,\"action\":\"name\",\"value\":\" 新名 \"}".to_string())
    );
}

#[test]
fn group_settings_payloads() {
    let all = group_settings_payload(1, 4, " c ", "", " a ", 0, 1);
    assert_eq!(
        to_text(&all),
        "{\"room_id\":1,\"join_type\":4,\"show_in_list\":0,\"allow_invite\":1,\"fixed_code\":\"c\",\"answer\":\"a\"}"
    );
    let bare = group_settings_payload(1, 1, "", " ", "", 1, 0);
    assert_eq!(to_text(&bare), "{\"room_id\":1,\"join_type\":1,\"show_in_list\":1,\"allow_invite\":0}");
}

#[test]
fn member_action_requests() {
    let shown = |r: Result<(String, Json), String>| r.map(|(p, j)| (p, to_text(&j)));
    assert_eq!(
        shown(member_action_request(3, 8, "mute")),
        Ok(("/group/mute_member".to_string(), "{\"room_id\":3,\"target_uid\":8,\"action\":\"mute\",\"minutes\":60}".to_string()))
    );
    assert_eq!(
        shown(member_action_request(3, 8, "unmute")),
        Ok(("/group/mute_member".to_string(), "{\"room_id\":3,\"target_uid\":8,\"action\":\"unmute\"}".to_string()))
    );
    assert_eq!(
        shown(member_action_request(3, 8, "kick")),
        Ok(("/group/kick_member".to_string(), "{\"room_id\":3,\"target_uid\":8}".to_string()))
    );
    assert_eq!(shown(member_action_request(3, 8, "ban")), Err("未知成员操作".to_string()));
}

#[test]
fn recover_payloads() {
    assert_eq!(to_text(&recover_friend_payload(6, true)), "{\"friend_id\":6,\"direct\":\"1\"}");
    assert_eq!(to_text(&recover_friend_payload(6, false)), "{\"friend_id\":6,\"message\":\"希望恢复好友关系\"}");
}

fn search(in_group: bool, has_apply: bool, join_type: i64) -> GroupSearchResult {
    GroupSearchResult {
        room_id: 1,
        room_name: "茶馆".to_string(),
        intro: String::new(),
        notice: String::new(),
        owner_name: String::new(),
        join_type,
        ask_question: String::new(),
        is_in_group: in_group,
        has_apply,
    }
}

fn step_text(step: DetailStep) -> Option<String> {
    match step {
        DetailStep::Notice(t) => Some(t),
        DetailStep::ApplyJoin => None,
    }
}

#[test]
fn public_group_detail_steps() {
    assert_eq!(step_text(public_group_detail_step(&search(true, true, 1))), Some("你已加入「茶馆」，可在我的群组中进入聊天".to_string()));
    assert_eq!(step_text(public_group_detail_step(&search(false, true, 1))), Some("「茶馆」的入群申请正在等待审核".to_string()));
    assert_eq!(step_text(public_group_detail_step(&search(false, false, 1))), None);
    assert_eq!(
        step_text(public_group_detail_step(&search(false, false, 2))),
        Some("「茶馆」需要邀请码，请在首页按群组 ID 搜索后填写验证信息".to_string())
    );
    assert_eq!(
        step_text(public_group_detail_step(&search(false, false, 7))),
        Some("「茶馆」可申请加入，请在首页按群组 ID 搜索后填写验证信息".to_string())
    );
}

#[test]
fn data_urls() {
    assert_eq!(data_url_payload("data:image/png;base64,aGk="), Ok("aGk=".to_string()));
    assert_eq!(data_url_payload("data:,a,b"), Ok("a,b".to_string()));
    assert_eq!(data_url_payload("nocomma"), Err("文件数据格式异常".to_string()));
}

#[test]
fn link_pieces_give_back_the_text() {
    for t in ["见 https://a.b/c。谢谢", "see https://a.b and http://c.d x", "http://", "a\thttp://b\nc", ""] {
        let joined: String = link_segments(t)
            .into_iter()
            .map(|s| match s {
                LinkSegment::Text(v) => v,
                LinkSegment::Url(v) => v,
            })
            .collect();
        assert_eq!(joined, t);
    }
}

#[test]
fn stripped_html_has_no_brackets() {
    for t in ["<a>b</a>", "x > y < z", "<<>>", "plain"] {
        let out = strip_html(t);
        assert!(!out.contains('<') && !out.contains('>'));
        assert!(out.chars().count() <= t.chars().count());
    }
}

#[test]
fn absolute_media_twice() {
    for p in ["/upload/a.png", "x.png", "", "http://h/a", "///y"] {
        let once = absolute_media(p.to_string());
        assert_eq!(absolute_media(once.clone()), once);
    }
}

#[test]
fn link_pieces_are_well_formed() {
    for t in ["a http://x\"b\" c https://y。 d", "http://a http://b", "x", "https://q<r>"] {
        let pieces = link_segments(t);
        for (i, p) in pieces.iter().enumerate() {
            match p {
                LinkSegment::Url(u) => {
                    assert!(u.starts_with("http://") || u.starts_with("https://"));
                    assert!(!u.chars().any(|c| c.is_whitespace() || "\"'<>，。".contains(c)));
                }
                LinkSegment::Text(x) => {
                    assert!(!x.is_empty());
                    if let Some(LinkSegment::Text(_)) = pieces.get(i + 1) {
                        panic!("two texts next to each other");
                    }
                }
            }
        }
    }
}
