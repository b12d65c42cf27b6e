use botmaid::{
    AdminCheck, ApiHandle, BotInstance, BotMaid, Chat, ChatInfo, Event, Group, Message,
    MessageContent, MessageContents, User,
};

fn handle(key: u64) -> ApiHandle {
    ApiHandle::new(key, User::new("-".to_string()))
}

#[test]
fn user_builder_keeps_id_and_nickname() {
    let u = User::new("42".to_string()).nickname("pat".to_string());
    assert_eq!(u.get_id(), "42");
    assert_eq!(u.get_nickname(), "pat");
}

#[test]
fn user_without_nickname_displays_empty() {
    let u = User::new("42".to_string());
    assert_eq!(u.get_nickname(), "");
}

#[test]
fn group_keeps_id() {
    let g = Group::new("77".to_string());
    assert_eq!(g.get_id(), "77");
}

#[test]
fn contents_render_keeps_order() {
    let contents = MessageContents::new()
        .text("a".to_string())
        .at(User::new("5".to_string()))
        .text("b".to_string());
    assert_eq!(contents.render(), "a@ b");
}

#[test]
fn contents_render_uses_nickname() {
    let contents = MessageContents::new()
        .text("hi ".to_string())
        .at(User::new("5".to_string()).nickname("pat".to_string()));
    assert_eq!(contents.render(), "hi @pat ");
}

#[test]
fn chat_from_raw_group_and_private() {
    let c = Chat::from_raw(handle(1), 1, "g1".to_string());
    assert_eq!(c.type_as_i32(), 1);
    assert_eq!(c.get_id(), "g1");
    match c.get_info() {
        ChatInfo::Group(g) => assert_eq!(g.get_id(), "g1"),
        ChatInfo::Private(_) => panic!("expected a group chat"),
    }
    let p = Chat::from_raw(handle(1), 0, "u1".to_string());
    assert_eq!(p.type_as_i32(), 0);
    assert_eq!(p.get_id(), "u1");
    match p.get_info() {
        ChatInfo::Private(u) => assert_eq!(u.get_id(), "u1"),
        ChatInfo::Group(_) => panic!("expected a private chat"),
    }
}

#[test]
fn spawned_chats_share_the_adapter() {
    let c = Chat::from_raw(handle(9), 0, "u1".to_string());
    let g = c.spawn_group(Group::new("g2".to_string()));
    assert_eq!(g.get_api().get_key(), 9);
    let p = c.spawn_private(User::new("u2".to_string()));
    assert_eq!(p.get_api().get_key(), 9);
}

#[test]
fn message_accessors() {
    let chat = Chat::from_raw(handle(3), 0, "u1".to_string());
    let m = Message::new(
        "m1".to_string(),
        MessageContents::new().text("hello".to_string()),
        chat,
        User::new("u1".to_string()),
    );
    assert_eq!(m.get_id(), "m1");
    assert_eq!(m.get_sender().get_id(), "u1");
    assert_eq!(m.get_chat().get_id(), "u1");
    assert_eq!(m.get_contents().render(), "hello");
    assert_eq!(m.get_api().get_key(), 3);
}

#[test]
fn be_at_detects_own_mention() {
    let chat = Chat::from_raw(handle(3), 0, "u1".to_string());
    let m = Message::new(
        "m1".to_string(),
        MessageContents::new().at(User::new("-".to_string())),
        chat,
        User::new("u1".to_string()),
    );
    assert!(m.be_at());
}

#[test]
fn be_at_ignores_other_mentions_and_text() {
    let chat = Chat::from_raw(handle(3), 0, "u1".to_string());
    let m = Message::new(
        "m1".to_string(),
        MessageContents::new()
            .text("-".to_string())
            .at(User::new("someone".to_string())),
        chat,
        User::new("u1".to_string()),
    );
    assert!(!m.be_at());
}

#[test]
fn reply_routes_to_the_same_chat() {
    let chat = Chat::from_raw(handle(4), 1, "g1".to_string());
    let m = Message::new(
        "m7".to_string(),
        MessageContents::new(),
        chat,
        User::new("u1".to_string()),
    );
    let req = m.reply(MessageContents::new().text("pong".to_string()));
    assert_eq!(req.chat.get_api().get_key(), 4);
    assert_eq!(req.reply_to.as_deref(), Some("m7"));
    assert_eq!(req.contents.render(), "pong");
}

#[test]
fn send_msg_has_no_reply_reference() {
    let chat = Chat::from_raw(handle(4), 0, "u1".to_string());
    let req = chat.send_msg(MessageContents::new().text("hi".to_string()));
    assert!(req.reply_to.is_none());
    assert_eq!(req.chat.get_id(), "u1");
}

#[test]
fn private_chats_need_no_admin_query() {
    let chat = Chat::from_raw(handle(4), 0, "u1".to_string());
    let u = User::new("anyone".to_string());
    match u.is_chat_admin(&chat) {
        AdminCheck::Admin => {}
        AdminCheck::NeedGroupQuery(_) => panic!("private chats make everyone an admin"),
    }
}

#[test]
fn group_chats_name_the_group_to_query() {
    let chat = Chat::from_raw(handle(4), 1, "g9".to_string());
    let u = User::new("anyone".to_string());
    match u.is_chat_admin(&chat) {
        AdminCheck::NeedGroupQuery(g) => assert_eq!(g.get_id(), "g9"),
        AdminCheck::Admin => panic!("group chats need a platform query"),
    }
}

struct CountingInstance;

impl BotInstance for CountingInstance {
    fn handle_msg(&self, msg: Message) -> Result<(), String> {
        if msg.get_id() == "boom" {
            Err("boom".to_string())
        } else {
            Ok(())
        }
    }

    fn run_jobs(&self, _apis: &Vec<ApiHandle>) -> Result<(), String> {
        Ok(())
    }
}

#[test]
fn builder_collects_adapters_in_order() {
    let mut builder = BotMaid::new(CountingInstance);
    let a = builder.add_api(handle(1));
    let b = builder.add_api(handle(2));
    assert_eq!(a.get_key(), 1);
    assert_eq!(b.get_key(), 2);
    let maid = builder.build();
    assert_eq!(maid.get_apis().len(), 2);
    assert_eq!(maid.get_apis()[0].get_key(), 1);
    assert_eq!(maid.get_apis()[1].get_key(), 2);
}

#[test]
fn other_events_are_absorbed() {
    let maid = BotMaid::new(CountingInstance).build();
    assert!(maid.handle_event(Event::Other("notice".to_string())).is_ok());
}

#[test]
fn message_events_reach_the_handler() {
    let maid = BotMaid::new(CountingInstance).build();
    let chat = Chat::from_raw(handle(1), 0, "u1".to_string());
    let bad = Message::new(
        "boom".to_string(),
        MessageContents::new(),
        chat,
        User::new("u1".to_string()),
    );
    assert!(maid.handle_event(Event::Message(bad)).is_err());
}

#[test]
fn default_contents_are_empty() {
    let contents: MessageContents = Default::default();
    assert_eq!(contents.len(), 0);
    assert_eq!(contents.render(), "");
}

#[test]
fn contents_get_returns_each_unit() {
    let contents = MessageContents::new()
        .text("x".to_string())
        .at(User::new("5".to_string()));
    assert_eq!(contents.len(), 2);
    match contents.get(0) {
        MessageContent::Text(t) => assert_eq!(t, "x"),
        MessageContent::At(_) => panic!("expected text first"),
    }
    match contents.get(1) {
        MessageContent::At(u) => assert_eq!(u.get_id(), "5"),
        MessageContent::Text(_) => panic!("expected a mention second"),
    }
}
