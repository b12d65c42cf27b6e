use botmaid::api::telegram::{
    admin_from_status, group_member_request, send_request, unwrap_envelope, ApiError,
    ChatMemberStatus, Envelope, EntitySpan, GetChatMemberData, GetMeData, MessageEntity, Poller,
    TelegramError, TgChat, TgUser, Telegram, Update, WireMessage,
};
use botmaid::api::BotAPI;
use botmaid::utf16::{decode_utf16_range, utf16_of_str};
use botmaid::{Chat, ChatInfo, Event, Group, MessageContent, MessageContents, User};

fn adapter() -> Telegram {
    Telegram::new(
        GetMeData { id: 99, username: Some("botnick".to_string()) },
        1,
    )
}

fn text_message(text: &str, entities: Option<Vec<MessageEntity>>) -> Update {
    Update {
        update_id: 1,
        message: Some(WireMessage {
            message_id: 10,
            from: Some(TgUser { id: 5, first_name: "Ann".to_string(), last_name: None }),
            chat: Some(TgChat { id: 7, kind: "private".to_string() }),
            text: Some(text.to_string()),
            entities,
        }),
    }
}

#[test]
fn adapter_identity_comes_from_the_login_answer() {
    let t = adapter();
    assert_eq!(t.get_self_user().get_id(), "99");
    assert_eq!(t.get_self_user().get_nickname(), "botnick");
}

#[test]
fn updates_without_message_or_text_are_ignored() {
    let t = adapter();
    let no_message = Update { update_id: 1, message: None };
    assert!(matches!(t.handle_update(no_message), Ok(None)));
    let no_text = Update {
        update_id: 2,
        message: Some(WireMessage {
            message_id: 11,
            from: None,
            chat: None,
            text: None,
            entities: None,
        }),
    };
    assert!(matches!(t.handle_update(no_text), Ok(None)));
}

#[test]
fn plain_text_becomes_one_text_unit() {
    let t = adapter();
    match t.handle_update(text_message("hello", None)) {
        Ok(Some(Event::Message(m))) => {
            assert_eq!(m.get_id(), "10");
            assert_eq!(m.get_contents().render(), "hello");
            assert_eq!(m.get_sender().get_id(), "5");
            assert_eq!(m.get_sender().get_nickname(), "Ann");
            match m.get_chat().get_info() {
                ChatInfo::Private(u) => assert_eq!(u.get_id(), "7"),
                ChatInfo::Group(_) => panic!("kind private must give a private chat"),
            }
        }
        _ => panic!("expected a decoded message"),
    }
}

#[test]
fn last_name_joins_the_sender_nickname() {
    let t = adapter();
    let mut u = text_message("x", None);
    if let Some(m) = &mut u.message {
        m.from = Some(TgUser {
            id: 5,
            first_name: "Ann".to_string(),
            last_name: Some("Lee".to_string()),
        });
    }
    match t.handle_update(u) {
        Ok(Some(Event::Message(m))) => assert_eq!(m.get_sender().get_nickname(), "Ann Lee"),
        _ => panic!("expected a decoded message"),
    }
}

#[test]
fn non_private_kind_gives_a_group_chat() {
    let t = adapter();
    let mut u = text_message("x", None);
    if let Some(m) = &mut u.message {
        m.chat = Some(TgChat { id: -42, kind: "supergroup".to_string() });
    }
    match t.handle_update(u) {
        Ok(Some(Event::Message(m))) => match m.get_chat().get_info() {
            ChatInfo::Group(g) => assert_eq!(g.get_id(), "-42"),
            ChatInfo::Private(_) => panic!("expected a group chat"),
        },
        _ => panic!("expected a decoded message"),
    }
}

#[test]
fn mention_by_id_and_gaps_split_the_text() {
    let t = adapter();
    let entities = vec![MessageEntity::TextMention {
        user: TgUser { id: 123, first_name: "".to_string(), last_name: None },
        base: EntitySpan { offset: 1, length: 2 },
    }];
    match t.handle_update(text_message("a@xb", Some(entities))) {
        Ok(Some(Event::Message(m))) => {
            let contents = m.get_contents();
            assert_eq!(contents.len(), 3);
            assert!(matches!(contents.get(0), MessageContent::Text(s) if s == "a"));
            assert!(matches!(contents.get(1), MessageContent::At(u) if u.get_id() == "123"));
            assert!(matches!(contents.get(2), MessageContent::Text(s) if s == "b"));
        }
        _ => panic!("expected a decoded message"),
    }
}

#[test]
fn mention_by_name_of_the_bot_resolves_to_self() {
    let t = adapter();
    let entities = vec![MessageEntity::Mention { base: EntitySpan { offset: 0, length: 8 } }];
    match t.handle_update(text_message("@botnick", Some(entities))) {
        Ok(Some(Event::Message(m))) => {
            assert!(m.be_at());
            assert!(
                matches!(m.get_contents().get(0), MessageContent::At(u) if u.get_id() == "99")
            );
        }
        _ => panic!("expected a decoded message"),
    }
}

#[test]
fn mention_by_name_of_someone_else_keeps_the_name_as_id() {
    let t = adapter();
    let entities = vec![MessageEntity::Mention { base: EntitySpan { offset: 0, length: 6 } }];
    match t.handle_update(text_message("@alice", Some(entities))) {
        Ok(Some(Event::Message(m))) => {
            assert!(
                matches!(m.get_contents().get(0), MessageContent::At(u) if u.get_id() == "alice")
            );
        }
        _ => panic!("expected a decoded message"),
    }
}

#[test]
fn entity_splitting_a_surrogate_pair_fails_that_update() {
    let t = adapter();
    let entities = vec![MessageEntity::TextMention {
        user: TgUser { id: 1, first_name: "".to_string(), last_name: None },
        base: EntitySpan { offset: 0, length: 1 },
    }];
    let r = t.handle_update(text_message("\u{1F600}", Some(entities)));
    assert!(matches!(r, Err(TelegramError::BadEntities)));
}

#[test]
fn entity_beyond_the_text_fails_that_update() {
    let t = adapter();
    let entities = vec![MessageEntity::Mention { base: EntitySpan { offset: 3, length: 9 } }];
    let r = t.handle_update(text_message("ab", Some(entities)));
    assert!(matches!(r, Err(TelegramError::BadEntities)));
}

#[test]
fn unrecognized_entities_add_nothing() {
    let t = adapter();
    let entities = vec![MessageEntity::Other];
    match t.handle_update(text_message("plain", Some(entities))) {
        Ok(Some(Event::Message(m))) => {
            assert_eq!(m.get_contents().len(), 1);
            assert_eq!(m.get_contents().render(), "plain");
        }
        _ => panic!("expected a decoded message"),
    }
}

#[test]
fn missing_chat_and_sender_decode_to_empty_identities() {
    let t = adapter();
    let u = Update {
        update_id: 3,
        message: Some(WireMessage {
            message_id: 12,
            from: None,
            chat: None,
            text: Some("x".to_string()),
            entities: None,
        }),
    };
    match t.handle_update(u) {
        Ok(Some(Event::Message(m))) => {
            assert_eq!(m.get_sender().get_id(), "");
            assert_eq!(m.get_sender().get_nickname(), "");
            match m.get_chat().get_info() {
                ChatInfo::Private(user) => assert_eq!(user.get_id(), ""),
                ChatInfo::Group(_) => panic!("a message without a chat falls back to private"),
            }
        }
        _ => panic!("expected a decoded message"),
    }
}

#[test]
fn utf16_round_trip_is_lossless_with_surrogates() {
    let units = utf16_of_str("x\u{1F600}y");
    assert_eq!(units, vec![0x78, 0xD83D, 0xDE00, 0x79]);
    let back = decode_utf16_range(&units, 0, 4).expect("well-formed code units decode");
    assert_eq!(back, "x\u{1F600}y");
    assert!(decode_utf16_range(&units, 1, 2).is_none());
}

#[test]
fn entity_offsets_count_utf16_code_units() {
    let chat = Chat::from_raw(adapter().get_handle().clone(), 0, "7".to_string());
    let contents = MessageContents::new()
        .text("\u{1F600}".to_string())
        .at(User::new("5".to_string()));
    let req = send_request(&contents, &chat, None).expect("ids parse");
    assert_eq!(req.text, "\u{1F600}@5");
    assert_eq!(req.entities.len(), 1);
    assert_eq!(req.entities[0].get_offset(), 2);
    assert_eq!(req.entities[0].get_length(), 2);
}

#[test]
fn wire_form_reparses_to_the_same_boundaries() {
    let t = adapter();
    let chat = Chat::from_raw(t.get_handle().clone(), 0, "7".to_string());
    let contents = MessageContents::new()
        .text("a".to_string())
        .at(User::new("5".to_string()))
        .text("b".to_string());
    let req = send_request(&contents, &chat, None).expect("ids parse");
    assert_eq!(req.text, "a@5b");
    assert_eq!(req.entities.len(), 1);
    assert_eq!(req.entities[0].get_offset(), 1);
    assert_eq!(req.entities[0].get_length(), 2);

    let update = Update {
        update_id: 1,
        message: Some(WireMessage {
            message_id: 20,
            from: None,
            chat: Some(TgChat { id: 7, kind: "private".to_string() }),
            text: Some(req.text.clone()),
            entities: Some(req.entities),
        }),
    };
    match t.handle_update(update) {
        Ok(Some(Event::Message(m))) => {
            let c = m.get_contents();
            assert_eq!(c.len(), 3);
            assert!(matches!(c.get(0), MessageContent::Text(s) if s == "a"));
            assert!(matches!(c.get(1), MessageContent::At(u) if u.get_id() == "5"));
            assert!(matches!(c.get(2), MessageContent::Text(s) if s == "b"));
        }
        _ => panic!("the wire form must decode back"),
    }
}

#[test]
fn mention_uses_nickname_when_known() {
    let chat = Chat::from_raw(adapter().get_handle().clone(), 0, "7".to_string());
    let contents = MessageContents::new().at(User::new("5".to_string()).nickname("pat".to_string()));
    let req = send_request(&contents, &chat, None).expect("ids parse");
    assert_eq!(req.text, "@pat");
    assert_eq!(req.entities[0].get_length(), 4);
}

#[test]
fn reply_reference_is_attached_only_when_replying() {
    let t = adapter();
    let chat = Chat::from_raw(t.get_handle().clone(), 0, "7".to_string());
    let original = match t.handle_update(text_message("ping", None)) {
        Ok(Some(Event::Message(m))) => m,
        _ => panic!("expected a decoded message"),
    };
    let with_reply =
        send_request(&MessageContents::new(), &chat, Some(&original)).expect("ids parse");
    match with_reply.reply_parameters {
        Some(rp) => assert_eq!(rp.message_id, 10),
        None => panic!("a reply must carry its reference"),
    }
    let without = send_request(&MessageContents::new(), &chat, None).expect("ids parse");
    assert!(without.reply_parameters.is_none());
}

#[test]
fn unparseable_ids_fail_the_send() {
    let chat = Chat::from_raw(adapter().get_handle().clone(), 0, "not-a-number".to_string());
    let r = send_request(&MessageContents::new(), &chat, None);
    assert!(matches!(r, Err(TelegramError::BadId)));

    let good_chat = Chat::from_raw(adapter().get_handle().clone(), 0, "7".to_string());
    let contents = MessageContents::new().at(User::new("alice".to_string()));
    let r2 = send_request(&contents, &good_chat, None);
    assert!(matches!(r2, Err(TelegramError::BadId)));
}

#[test]
fn bootstrap_discovers_the_offset_and_discards_the_backlog() {
    let mut p = Poller::new();
    let req = p.request();
    assert_eq!(req.offset, -1);
    assert_eq!(req.timeout, 1);
    let updates = vec![
        Update { update_id: 10, message: None },
        Update { update_id: 11, message: None },
        Update { update_id: 12, message: None },
    ];
    let dispatch = p.on_updates(updates);
    assert!(dispatch.is_empty());
    assert_eq!(p.offset, 12);
    let next = p.request();
    assert_eq!(next.offset, 13);
    assert_eq!(next.timeout, 60);
}

#[test]
fn polling_advances_and_dispatches_every_update() {
    let mut p = Poller::new();
    p.on_updates(Vec::new());
    assert_eq!(p.offset, 0);
    let batch = vec![
        Update { update_id: 3, message: None },
        Update { update_id: 5, message: None },
    ];
    let dispatch = p.on_updates(batch);
    assert_eq!(dispatch.len(), 2);
    assert_eq!(p.offset, 5);
}

#[test]
fn a_failed_poll_keeps_the_offset_and_waits() {
    let mut p = Poller::new();
    p.on_updates(vec![Update { update_id: 4, message: None }]);
    let before = p.offset;
    assert_eq!(p.on_error(), 3);
    assert_eq!(p.offset, before);
}

#[test]
fn envelope_success_needs_a_result() {
    let ok: Result<i64, ApiError> = unwrap_envelope(Envelope {
        ok: true,
        result: Some(41),
        err_code: None,
        description: None,
    });
    assert_eq!(ok.unwrap(), 41);

    let failed: Result<i64, ApiError> = unwrap_envelope(Envelope {
        ok: false,
        result: None,
        err_code: Some(400),
        description: Some("bad".to_string()),
    });
    match failed {
        Err(ApiError::Failed { err_code, description }) => {
            assert_eq!(err_code, Some(400));
            assert_eq!(description.as_deref(), Some("bad"));
        }
        _ => panic!("a reported failure keeps its code and description"),
    }

    let empty: Result<i64, ApiError> = unwrap_envelope(Envelope {
        ok: true,
        result: None,
        err_code: None,
        description: None,
    });
    assert!(matches!(empty, Err(ApiError::Empty)));
}

#[test]
fn creator_and_administrator_are_admins() {
    assert!(admin_from_status(&GetChatMemberData { status: ChatMemberStatus::Creator }));
    assert!(admin_from_status(&GetChatMemberData { status: ChatMemberStatus::Administrator }));
    assert!(!admin_from_status(&GetChatMemberData { status: ChatMemberStatus::Other }));
}

#[test]
fn membership_query_parses_both_ids() {
    let q = group_member_request(&User::new("5".to_string()), &Group::new("-100".to_string()))
        .expect("ids parse");
    assert_eq!(q.user_id, 5);
    assert_eq!(q.chat_id, -100);
    let bad = group_member_request(&User::new("x".to_string()), &Group::new("1".to_string()));
    assert!(matches!(bad, Err(TelegramError::BadId)));
}

#[test]
fn queue_delivers_in_arrival_order_one_at_a_time() {
    let mut t = adapter();
    let ev = match t.handle_update(text_message("one", None)) {
        Ok(Some(e)) => e,
        _ => panic!("expected a decoded message"),
    };
    assert!(t.push_event(ev).is_none());
    match t.next_event() {
        botmaid::api::Polled::Event(Event::Message(m)) => {
            assert_eq!(m.get_contents().render(), "one")
        }
        _ => panic!("expected the pushed event"),
    }
}
