use bot_bridge::config::{log_slot, ChannelMap, Token, TokenError};
use bot_bridge::consumer::{handle_event, LogBuffers, Reaction, LOG_CAPACITY};
use bot_bridge::event::{CommandReplyEvent, LogEvent, LogType, Message, ServerEvent, StatusEvent};
use serenity::model::user::OnlineStatus;
use serenity::utils::token::InvalidToken;

fn text(m: &Message) -> &str {
    match m {
        Message::Text(t) => t,
        Message::Embed(_) => panic!("expected text"),
    }
}

#[test]
fn well_formed_token_is_accepted() {
    let raw = "MTIzNDU2Nzg5MDEyMzQ1Njc4.AAAAAAAA.abcd";
    let t = Token::try_from(raw.to_string()).expect("valid");
    assert_eq!(t.as_str(), raw);
}

#[test]
fn malformed_tokens_are_refused() {
    assert_eq!(Token::try_from(String::new()).err(), Some(TokenError));
    assert_eq!(Token::try_from("Mjg4NzYwMjQxMzYzODc3ODg4".to_string()).err(), Some(TokenError));
}

#[test]
fn token_from_check_follows_the_check() {
    assert_eq!(Token::from_check("x".to_string(), Err(InvalidToken)).err(), Some(TokenError));
    assert_eq!(Token::from_check("x".to_string(), Ok(())).unwrap().as_str(), "x");
}

#[test]
fn log_slots_are_distinct() {
    let all = [
        LogType::Command,
        LogType::GameEvent,
        LogType::GameEventSensitive,
        LogType::Ban,
        LogType::Report,
        LogType::Disconnect,
    ];
    let slots: Vec<usize> = all.iter().map(|t| log_slot(*t)).collect();
    assert_eq!(slots, vec![0, 1, 2, 3, 4, 5]);
}

#[test]
fn channel_map_set_and_get() {
    let mut m = ChannelMap::new();
    assert_eq!(m.get(LogType::Ban), None);
    m.set(LogType::Ban, Some(42));
    assert_eq!(m.get(LogType::Ban), Some(42));
    assert_eq!(m.get(LogType::Report), None);
    m.set(LogType::Ban, None);
    assert_eq!(m.get(LogType::Ban), None);
}

#[test]
fn log_lines_are_buffered_per_type_in_order() {
    let mut b = LogBuffers::new();
    for (t, s) in [(LogType::Ban, "one"), (LogType::Report, "r"), (LogType::Ban, "two")] {
        let e = ServerEvent::Log(LogEvent { message: Message::Text(s.to_string()), log_type: t });
        assert!(matches!(handle_event(&mut b, e), Reaction::Buffered));
    }
    assert_eq!(b.len_at(log_slot(LogType::Ban)), 2);
    let ban = b.drain_at(log_slot(LogType::Ban));
    let ban: Vec<&str> = ban.iter().map(text).collect();
    assert_eq!(ban, vec!["one", "two"]);
    assert_eq!(b.len_at(log_slot(LogType::Ban)), 0);
    assert_eq!(b.len_at(log_slot(LogType::Report)), 1);
}

#[test]
fn full_log_buffer_drops_oldest_line() {
    let mut b = LogBuffers::new();
    let slot = log_slot(LogType::Command);
    for i in 0..=LOG_CAPACITY {
        b.push_at(slot, Message::Text(i.to_string()));
    }
    assert_eq!(b.len_at(slot), LOG_CAPACITY);
    let lines = b.drain_at(slot);
    assert_eq!(text(&lines[0]), "1");
    assert_eq!(text(&lines[LOG_CAPACITY - 1]), LOG_CAPACITY.to_string());
}

#[test]
fn status_and_replies_are_handed_back() {
    let mut b = LogBuffers::new();
    let status = ServerEvent::Status(StatusEvent {
        activity: Some("playing".to_string()),
        status: OnlineStatus::Idle,
    });
    match handle_event(&mut b, status) {
        Reaction::SetPresence(s) => {
            assert_eq!(s.activity.as_deref(), Some("playing"));
            assert_eq!(s.status, OnlineStatus::Idle);
        }
        other => panic!("unexpected {:?}", other),
    }
    let reply = ServerEvent::CommandReply(CommandReplyEvent {
        command_id: 7,
        reply: Message::Text("ok".to_string()),
        error: false,
    });
    match handle_event(&mut b, reply) {
        Reaction::Reply(c) => {
            assert_eq!(c.command_id, 7);
            assert_eq!(text(&c.reply), "ok");
            assert!(!c.error);
        }
        other => panic!("unexpected {:?}", other),
    }
    for i in 0..6 {
        assert_eq!(b.len_at(i), 0);
    }
}
