use botmaid::api::cli::{fenced_block, Cli, DEFAULT_BOT_ID};
use botmaid::api::{BotAPI, Polled};
use botmaid::{ChatInfo, Event, Message, MessageContent, MessageContents, User};

#[test]
fn cli_identity_is_the_default_bot_id() {
    let c = Cli::new(3);
    assert_eq!(c.get_self_user().get_id(), DEFAULT_BOT_ID);
    assert_eq!(c.get_handle().get_key(), 3);
}

#[test]
fn a_line_splits_at_each_own_mention() {
    let c = Cli::new(3);
    let m: Message = c.handle_line(&"hi @- there @- x".to_string());
    let contents = m.get_contents();
    assert_eq!(contents.len(), 5);
    assert!(matches!(contents.get(0), MessageContent::Text(s) if s == "hi "));
    assert!(matches!(contents.get(1), MessageContent::At(u) if u.get_id() == "-"));
    assert!(matches!(contents.get(2), MessageContent::Text(s) if s == "there "));
    assert!(matches!(contents.get(3), MessageContent::At(u) if u.get_id() == "-"));
    assert!(matches!(contents.get(4), MessageContent::Text(s) if s == "x"));
}

#[test]
fn a_line_without_mentions_is_one_text_segment() {
    let c = Cli::new(3);
    let m = c.handle_line(&"just some text".to_string());
    assert_eq!(m.get_contents().len(), 1);
    assert!(matches!(m.get_contents().get(0), MessageContent::Text(s) if s == "just some text"));
}

#[test]
fn an_empty_line_reads_as_empty_contents() {
    let c = Cli::new(3);
    let m = c.handle_line(&"".to_string());
    assert_eq!(m.get_contents().len(), 0);
}

#[test]
fn text_after_the_last_mention_is_kept() {
    let c = Cli::new(3);
    let m = c.handle_line(&"@- x".to_string());
    let contents = m.get_contents();
    assert_eq!(contents.len(), 2);
    assert!(matches!(contents.get(0), MessageContent::At(u) if u.get_id() == "-"));
    assert!(matches!(contents.get(1), MessageContent::Text(s) if s == "x"));
}

#[test]
fn adjacent_mentions_leave_no_gap_text() {
    let c = Cli::new(3);
    let m = c.handle_line(&"@- @- ".to_string());
    let contents = m.get_contents();
    assert_eq!(contents.len(), 2);
    assert!(matches!(contents.get(0), MessageContent::At(_)));
    assert!(matches!(contents.get(1), MessageContent::At(_)));
}

#[test]
fn a_read_line_arrives_privately_from_the_process_owner() {
    let c = Cli::new(3);
    let m = c.handle_line(&"@- hello".to_string());
    assert_eq!(m.get_api().get_key(), 3);
    match m.get_chat().get_info() {
        ChatInfo::Private(u) => assert_eq!(u.get_id(), m.get_sender().get_id()),
        ChatInfo::Group(_) => panic!("terminal input is a private chat"),
    }
}

#[test]
fn a_mention_of_the_bot_is_detected_on_read_lines() {
    let c = Cli::new(3);
    let m = c.handle_line(&"@- hello".to_string());
    assert!(m.be_at());
}

#[test]
fn outbound_messages_print_in_a_fenced_block() {
    let contents = MessageContents::new()
        .text("pong ".to_string())
        .at(User::new("u".to_string()).nickname("sam".to_string()));
    let block = fenced_block(&contents);
    assert_eq!(block, "```\npong @sam \n```");
}

#[test]
fn outbound_send_answers_a_decimal_clock_id() {
    let c = Cli::new(3);
    let m = c.handle_line(&"@- ping".to_string());
    let chat = m.get_chat().clone();
    let id = c.send_msg_inner(MessageContents::new().text("pong".to_string()), chat, None);
    assert!(!id.is_empty());
    assert!(id.chars().all(|ch| ch.is_ascii_digit()));
}

#[test]
fn cli_queue_behaves_like_every_other_adapter() {
    let mut c = Cli::new(3);
    let m = c.handle_line(&"@- ping".to_string());
    assert!(c.push_event(Event::Message(m)).is_none());
    assert!(matches!(c.next_event(), Polled::Event(_)));
    assert!(matches!(c.next_event(), Polled::Empty));
    c.close();
    assert!(matches!(c.next_event(), Polled::Closed));
}
