use botmaid::api::mock::{Action, Mock, DEFAULT_BOT_ID, DEFAULT_SENDER_ID};
use botmaid::api::{BotAPI, Polled};
use botmaid::{Chat, ChatInfo, Event, Group, Message, MessageContents, User};

#[test]
fn fresh_mock_has_expected_identity() {
    let m = Mock::new(7);
    assert_eq!(m.get_self_user().get_id(), DEFAULT_BOT_ID);
    assert_eq!(m.get_handle().get_key(), 7);
}

#[test]
fn one_send_drains_exactly_once() {
    let mut m = Mock::new(1);
    let chat = Chat::from_raw(m.get_handle().clone(), 0, "u".to_string());
    m.send_msg_inner(
        MessageContents::new().text("hi".to_string()),
        chat,
        None,
    );
    let first = m.get_actions();
    assert_eq!(first.len(), 1);
    match &first[0] {
        Action::SendMessage(msg) => assert_eq!(msg.get_contents().render(), "hi"),
        Action::Other => panic!("expected the recorded send"),
    }
    let second = m.get_actions();
    assert!(second.is_empty());
}

#[test]
fn send_answers_the_default_sender_id() {
    let mut m = Mock::new(1);
    let chat = Chat::from_raw(m.get_handle().clone(), 0, "u".to_string());
    let id = m.send_msg_inner(MessageContents::new(), chat, None);
    assert_eq!(id, DEFAULT_SENDER_ID);
}

#[test]
fn recorded_message_gets_a_fresh_id() {
    let mut m = Mock::new(1);
    let chat = Chat::from_raw(m.get_handle().clone(), 0, "u".to_string());
    m.send_msg_inner(MessageContents::new(), chat, None);
    let actions = m.get_actions();
    match actions.into_iter().next().unwrap().send_msg() {
        Some(msg) => assert_eq!(msg.get_id().len(), 36),
        None => panic!("expected a send action"),
    }
}

#[test]
fn injected_event_comes_back_out() {
    let mut m = Mock::new(1);
    let chat = Chat::from_raw(m.get_handle().clone(), 0, "u".to_string());
    let msg = Message::new(
        "e1".to_string(),
        MessageContents::new(),
        chat,
        User::new("u".to_string()),
    );
    assert!(m.happen(Event::Message(msg)).is_none());
    match m.next_event() {
        Polled::Event(Event::Message(got)) => assert_eq!(got.get_id(), "e1"),
        _ => panic!("expected the injected event"),
    }
    match m.next_event() {
        Polled::Empty => {}
        _ => panic!("the queue should be empty and open"),
    }
}

#[test]
fn full_queue_hands_the_event_back() {
    let mut m = Mock::new(1);
    m.simple_text("one".to_string());
    let chat = Chat::from_raw(m.get_handle().clone(), 0, "u".to_string());
    let msg = Message::new(
        "e2".to_string(),
        MessageContents::new(),
        chat,
        User::new("u".to_string()),
    );
    let back = m.happen(Event::Message(msg));
    assert!(back.is_some());
}

#[test]
fn simple_msg_uses_default_sender_in_private_chat() {
    let mut m = Mock::new(1);
    m.simple_text("hello".to_string());
    match m.next_event() {
        Polled::Event(Event::Message(msg)) => {
            assert_eq!(msg.get_sender().get_id(), "0");
            assert_eq!(msg.get_sender().get_nickname(), "tester");
            assert_eq!(msg.get_contents().render(), "hello");
            assert_eq!(msg.get_api().get_key(), 1);
            match msg.get_chat().get_info() {
                ChatInfo::Private(u) => assert_eq!(u.get_id(), "0"),
                ChatInfo::Group(_) => panic!("expected a private chat"),
            }
        }
        _ => panic!("expected the injected message"),
    }
}

#[test]
fn closed_queue_reports_end_of_stream() {
    let mut m = Mock::new(1);
    m.close();
    match m.next_event() {
        Polled::Closed => {}
        _ => panic!("a closed empty queue ends the stream"),
    }
}

#[test]
fn pending_event_survives_closing() {
    let mut m = Mock::new(1);
    m.simple_text("last".to_string());
    m.close();
    match m.next_event() {
        Polled::Event(_) => {}
        _ => panic!("the pending event is still delivered"),
    }
    match m.next_event() {
        Polled::Closed => {}
        _ => panic!("after draining, the stream has ended"),
    }
}

#[test]
fn only_the_default_sender_is_group_admin() {
    let m = Mock::new(1);
    let g = Group::new("g".to_string());
    assert!(m.is_group_admin(&User::new("0".to_string()), &g));
    assert!(!m.is_group_admin(&User::new("1".to_string()), &g));
}
