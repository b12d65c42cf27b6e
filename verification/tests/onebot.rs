use botmaid::api::onebot_11::{
    admin_from_role, build_send_request, group_member_request, unwrap_envelope, ApiError,
    ConnEvent, ConnState, Connection, Envelope, GetGroupMemberInfoData, GetLoginInfoData,
    GroupRole, MessageSegment, MessageType, OneBot11, OneBotError, RespStatus, SendMsgReq,
    WireEvent, WireSender, RECONNECT_DELAY_SECS,
};
use botmaid::api::{BotAPI, Polled};
use botmaid::{Chat, ChatInfo, Event, Group, MessageContent, MessageContents, User};

fn gateway() -> OneBot11 {
    OneBot11::new(
        GetLoginInfoData { user_id: 9000, nickname: "gw".to_string() },
        2,
    )
}

fn message_event(
    message_type: MessageType,
    group_id: Option<i64>,
    message: Vec<MessageSegment>,
) -> WireEvent {
    WireEvent::Message {
        message_id: 31,
        message_type,
        group_id,
        user_id: 12,
        message,
        sender: WireSender { nickname: "sam".to_string() },
    }
}

#[test]
fn gateway_identity_comes_from_the_login_answer() {
    let g = gateway();
    assert_eq!(g.get_self_user().get_id(), "9000");
    assert_eq!(g.get_self_user().get_nickname(), "gw");
    assert_eq!(g.get_handle().get_key(), 2);
}

#[test]
fn non_message_events_are_ignored() {
    let g = gateway();
    assert!(matches!(g.handle_event(WireEvent::Other), Ok(None)));
}

#[test]
fn segments_translate_in_order_and_unknown_kinds_are_skipped() {
    let g = gateway();
    let segments = vec![
        MessageSegment::Text { text: "hi ".to_string() },
        MessageSegment::Other,
        MessageSegment::At { qq: "12".to_string() },
        MessageSegment::Text { text: "!".to_string() },
    ];
    match g.handle_event(message_event(MessageType::Private, None, segments)) {
        Ok(Some(Event::Message(m))) => {
            let c = m.get_contents();
            assert_eq!(c.len(), 3);
            assert!(matches!(c.get(0), MessageContent::Text(s) if s == "hi "));
            assert!(matches!(c.get(1), MessageContent::At(u) if u.get_id() == "12"));
            assert!(matches!(c.get(2), MessageContent::Text(s) if s == "!"));
            assert_eq!(m.get_id(), "31");
            assert_eq!(m.get_sender().get_id(), "12");
            assert_eq!(m.get_sender().get_nickname(), "sam");
        }
        _ => panic!("expected a decoded message"),
    }
}

#[test]
fn private_messages_chat_with_their_sender() {
    let g = gateway();
    match g.handle_event(message_event(MessageType::Private, None, Vec::new())) {
        Ok(Some(Event::Message(m))) => match m.get_chat().get_info() {
            ChatInfo::Private(u) => assert_eq!(u.get_id(), "12"),
            ChatInfo::Group(_) => panic!("expected a private chat"),
        },
        _ => panic!("expected a decoded message"),
    }
}

#[test]
fn group_messages_need_their_group_id() {
    let g = gateway();
    match g.handle_event(message_event(MessageType::Group, Some(555), Vec::new())) {
        Ok(Some(Event::Message(m))) => match m.get_chat().get_info() {
            ChatInfo::Group(grp) => assert_eq!(grp.get_id(), "555"),
            ChatInfo::Private(_) => panic!("expected a group chat"),
        },
        _ => panic!("expected a decoded message"),
    }
    let missing = g.handle_event(message_event(MessageType::Group, None, Vec::new()));
    assert!(matches!(missing, Err(OneBotError::NoGroupId)));
}

#[test]
fn group_send_keeps_mentions_as_at_segments() {
    let g = gateway();
    let chat = Chat::from_raw(g.get_handle().clone(), 1, "555".to_string());
    let contents = MessageContents::new()
        .text("hi".to_string())
        .at(User::new("12".to_string()));
    let req = build_send_request(&contents, &chat, None).expect("the chat id parses");
    match req {
        SendMsgReq::Group { group_id, message } => {
            assert_eq!(group_id, 555);
            assert_eq!(message.len(), 3);
            assert!(matches!(&message[0], MessageSegment::Text { text } if text == "hi"));
            assert!(matches!(&message[1], MessageSegment::At { qq } if qq == "12"));
            assert!(matches!(&message[2], MessageSegment::Text { text } if text == " "));
        }
        SendMsgReq::Private { .. } => panic!("expected a group send"),
    }
}

#[test]
fn private_send_degrades_mentions_to_text() {
    let g = gateway();
    let chat = Chat::from_raw(g.get_handle().clone(), 0, "12".to_string());
    let contents =
        MessageContents::new().at(User::new("12".to_string()).nickname("sam".to_string()));
    let req = build_send_request(&contents, &chat, None).expect("the chat id parses");
    match req {
        SendMsgReq::Private { user_id, message } => {
            assert_eq!(user_id, 12);
            assert_eq!(message.len(), 2);
            assert!(matches!(&message[0], MessageSegment::Text { text } if text == "sam"));
            assert!(matches!(&message[1], MessageSegment::Text { text } if text == " "));
        }
        SendMsgReq::Group { .. } => panic!("expected a private send"),
    }
}

#[test]
fn replies_open_with_a_reply_segment() {
    let g = gateway();
    let original = match g.handle_event(message_event(MessageType::Private, None, Vec::new())) {
        Ok(Some(Event::Message(m))) => m,
        _ => panic!("expected a decoded message"),
    };
    let chat = Chat::from_raw(g.get_handle().clone(), 0, "12".to_string());
    let req = build_send_request(&MessageContents::new(), &chat, Some(&original))
        .expect("the chat id parses");
    match req {
        SendMsgReq::Private { message, .. } => {
            assert_eq!(message.len(), 1);
            assert!(matches!(&message[0], MessageSegment::Reply { id } if id == "31"));
        }
        SendMsgReq::Group { .. } => panic!("expected a private send"),
    }
}

#[test]
fn unparseable_chat_id_fails_the_send() {
    let g = gateway();
    let chat = Chat::from_raw(g.get_handle().clone(), 1, "clubhouse".to_string());
    let r = build_send_request(&MessageContents::new(), &chat, None);
    assert!(matches!(r, Err(OneBotError::BadId)));
}

#[test]
fn gateway_envelope_success_needs_data() {
    let ok: Result<i64, ApiError> = unwrap_envelope(Envelope {
        status: RespStatus::Okay,
        retcode: 0,
        data: Some(5),
        message: "".to_string(),
    });
    assert_eq!(ok.unwrap(), 5);

    let failed: Result<i64, ApiError> = unwrap_envelope(Envelope {
        status: RespStatus::Failed,
        retcode: 100,
        data: None,
        message: "denied".to_string(),
    });
    match failed {
        Err(ApiError::Failed { retcode, message }) => {
            assert_eq!(retcode, 100);
            assert_eq!(message, "denied");
        }
        _ => panic!("a failed status keeps retcode and message"),
    }

    let empty: Result<i64, ApiError> = unwrap_envelope(Envelope {
        status: RespStatus::Async,
        retcode: 0,
        data: None,
        message: "".to_string(),
    });
    assert!(matches!(empty, Err(ApiError::Empty)));
}

#[test]
fn owner_and_admin_are_group_admins_member_is_not() {
    assert!(admin_from_role(&GetGroupMemberInfoData { role: GroupRole::Owner }));
    assert!(admin_from_role(&GetGroupMemberInfoData { role: GroupRole::Admin }));
    assert!(!admin_from_role(&GetGroupMemberInfoData { role: GroupRole::Member }));
}

#[test]
fn gateway_membership_query_parses_both_ids() {
    let q = group_member_request(&User::new("12".to_string()), &Group::new("555".to_string()))
        .expect("ids parse");
    assert_eq!(q.user_id, 12);
    assert_eq!(q.group_id, 555);
    let bad = group_member_request(&User::new("sam".to_string()), &Group::new("555".to_string()));
    assert!(matches!(bad, Err(OneBotError::BadId)));
}

#[test]
fn a_dropped_stream_reconnects_after_the_fixed_delay() {
    let mut conn = Connection::new();
    assert_eq!(conn.state, ConnState::Disconnected);
    assert!(conn.step(ConnEvent::Dial).is_none());
    assert_eq!(conn.state, ConnState::Connecting);
    assert!(conn.step(ConnEvent::ConnectOk).is_none());
    assert_eq!(conn.state, ConnState::Connected);

    let delay = conn.step(ConnEvent::StreamEnded);
    assert_eq!(delay, Some(RECONNECT_DELAY_SECS));
    assert_eq!(conn.state, ConnState::Disconnected);

    assert!(conn.step(ConnEvent::Dial).is_none());
    assert!(conn.step(ConnEvent::ConnectOk).is_none());
    assert_eq!(conn.state, ConnState::Connected);
}

#[test]
fn a_failed_dial_also_waits_the_fixed_delay() {
    let mut conn = Connection::new();
    conn.step(ConnEvent::Dial);
    let delay = conn.step(ConnEvent::ConnectFailed);
    assert_eq!(delay, Some(RECONNECT_DELAY_SECS));
    assert_eq!(conn.state, ConnState::Disconnected);
}

#[test]
fn delivery_resumes_after_a_reconnect_without_restarting() {
    let mut g = gateway();
    g.conn.step(ConnEvent::Dial);
    g.conn.step(ConnEvent::ConnectOk);
    let first = match g.handle_event(message_event(MessageType::Private, None, Vec::new())) {
        Ok(Some(e)) => e,
        _ => panic!("expected a decoded message"),
    };
    assert!(g.push_event(first).is_none());
    assert!(matches!(g.next_event(), Polled::Event(_)));

    let delay = g.conn.step(ConnEvent::StreamEnded);
    assert_eq!(delay, Some(RECONNECT_DELAY_SECS));

    let second = match g.handle_event(message_event(MessageType::Private, None, Vec::new())) {
        Ok(Some(e)) => e,
        _ => panic!("expected a decoded message"),
    };
    assert!(g.push_event(second).is_none());
    assert!(matches!(g.next_event(), Polled::Event(_)));
}
