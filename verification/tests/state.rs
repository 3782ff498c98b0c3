use defay_client::config::{AppConfig, Theme};
use defay_client::net::{reader_step, step, NetAction, NetCmd, NetEvent, NetInput, Phase, T_OK};
use defay_client::protocol::{decode, encode, Frame};
use defay_client::state::{AppState, ChatMessage, Publication};

const SEC: u128 = 1_000_000_000;

fn fresh() -> AppState {
    AppState::new(AppConfig::default())
}

fn message(ts_ms: u64, username: &str, text: &str) -> NetEvent {
    NetEvent::Message { ts_ms, username: username.to_string(), text: text.to_string() }
}

fn with_log(entries: &[(u64, &str, &str)]) -> AppState {
    let mut state = fresh();
    for (ts, user, text) in entries {
        state.apply_event(message(*ts, user, text));
    }
    state
}

fn texts(hits: &[ChatMessage]) -> Vec<&str> {
    hits.iter().map(|m| m.text.as_str()).collect()
}

#[test]
fn default_settings() {
    let cfg = AppConfig::default();
    assert_eq!(cfg.last_host, "0.0.0.0");
    assert_eq!(cfg.last_port, 5555);
    assert_eq!(cfg.last_nick, "");
    assert!(!cfg.auto_connect);
    assert_eq!(cfg.theme, Theme::Light);
    assert!(cfg.notifications_enabled);
    assert_eq!(cfg.flood_limit_burst, 8);
    assert_eq!(cfg.flood_limit_window_sec, 30);
}

#[test]
fn state_at_launch() {
    let state = fresh();
    assert!(!state.connected);
    assert_eq!(state.status_text, "Готов.");
    assert!(state.messages.is_empty());
    assert!(state.window_focused);
    assert_eq!(state.published, 0);
    assert_eq!(state.rate.available(), 8);
}

#[test]
fn limiter_is_seeded_from_the_settings() {
    let mut cfg = AppConfig::default();
    cfg.flood_limit_burst = 2;
    cfg.flood_limit_window_sec = 5;
    let mut state = AppState::new(cfg);
    assert_eq!(state.rate.available(), 2);
    assert!(state.rate.take_at(0));
    assert!(state.rate.take_at(0));
    assert_eq!(state.rate.wait_at(0), 5);
    assert!(!state.rate.take_at(5 * SEC - 1));
    assert!(state.rate.take_at(5 * SEC));
}

#[test]
fn connected_sets_flag_and_status() {
    let mut state = fresh();
    assert_eq!(state.apply_event(NetEvent::Connected), None);
    assert!(state.connected);
    assert_eq!(state.status_text, "Подключено");
    assert!(state.messages.is_empty());
}

#[test]
fn disconnected_clears_flag_and_names_the_reason() {
    let mut state = fresh();
    state.apply_event(NetEvent::Connected);
    assert_eq!(state.apply_event(NetEvent::Disconnected { reason: "user".to_string() }), None);
    assert!(!state.connected);
    assert_eq!(state.status_text, "Отключено (user)");
}

#[test]
fn error_changes_only_the_status() {
    let mut state = fresh();
    state.apply_event(NetEvent::Connected);
    assert_eq!(state.apply_event(NetEvent::Error { msg: "not connected".to_string() }), None);
    assert!(state.connected);
    assert_eq!(state.status_text, "Ошибка: not connected");
    assert_eq!(state.published, 0);
}

#[test]
fn message_is_appended_and_counted() {
    let mut state = fresh();
    let out = state.apply_event(message(1000, "bob", "yo"));
    assert_eq!(out, Some(Publication { count: 1, notify: false }));
    assert_eq!(state.messages.len(), 1);
    assert_eq!(state.messages[0].ts_ms, 1000);
    assert_eq!(state.messages[0].username, "bob");
    assert_eq!(state.messages[0].text, "yo");
    assert_eq!(state.published, 1);
    assert_eq!(state.status_text, "Готов.");
    let out = state.apply_event(message(2000, "eve", "hey"));
    assert_eq!(out, Some(Publication { count: 2, notify: false }));
    assert_eq!(state.messages[0].text, "yo");
    assert_eq!(state.messages[1].text, "hey");
}

#[test]
fn notification_needs_consent_and_an_unfocused_window() {
    let mut state = fresh();
    state.window_focused = false;
    assert_eq!(state.apply_event(message(1, "a", "b")), Some(Publication { count: 1, notify: true }));
    state.cfg.notifications_enabled = false;
    assert_eq!(state.apply_event(message(2, "a", "b")), Some(Publication { count: 2, notify: false }));
    state.cfg.notifications_enabled = true;
    state.window_focused = true;
    assert_eq!(state.apply_event(message(3, "a", "b")), Some(Publication { count: 3, notify: false }));
}

#[test]
fn connect_uses_the_settings() {
    let mut cfg = AppConfig::default();
    cfg.last_host = "chat.lan".to_string();
    cfg.last_port = 7000;
    cfg.last_nick = "alice".to_string();
    let mut state = AppState::new(cfg);
    match state.connect() {
        NetCmd::Connect { host, port, nick } => {
            assert_eq!((host.as_str(), port, nick.as_str()), ("chat.lan", 7000, "alice"));
        }
        other => panic!("unexpected {:?}", other),
    }
    assert_eq!(state.status_text, "Подключение к chat.lan:7000…");
}

#[test]
fn connect_to_sets_the_status() {
    let mut state = fresh();
    let cmd = state.connect_to("10.1.2.3".to_string(), 80, "bob".to_string());
    assert!(matches!(cmd, NetCmd::Connect { port: 80, .. }));
    assert_eq!(state.status_text, "Подключение к 10.1.2.3:80…");
    assert!(!state.connected);
}

#[test]
fn disconnect_is_a_plain_command() {
    assert!(matches!(fresh().disconnect(), NetCmd::Disconnect));
}

#[test]
fn start_background_changes_nothing() {
    let state = fresh();
    state.start_background();
    assert_eq!(state.status_text, "Готов.");
}

#[test]
fn sending_with_a_token_makes_the_command() {
    let mut state = fresh();
    match state.send_text_at(0, "hi".to_string()) {
        Some(NetCmd::SendText(text)) => assert_eq!(text, "hi"),
        other => panic!("unexpected {:?}", other),
    }
    assert_eq!(state.rate.available_at(0), 7);
    assert_eq!(state.status_text, "Готов.");
}

#[test]
fn sending_on_an_empty_bucket_makes_no_command() {
    let mut state = fresh();
    for _ in 0..8 {
        assert!(state.send_text_at(0, "x".to_string()).is_some());
    }
    assert!(state.send_text_at(29 * SEC, "late".to_string()).is_none());
    assert_eq!(state.status_text, "Слишком часто");
    assert_eq!(state.rate.available_at(29 * SEC), 0);
    assert!(state.messages.is_empty());
    assert!(state.send_text_at(30 * SEC, "again".to_string()).is_some());
    assert_eq!(state.rate.available_at(30 * SEC), 7);
}

#[test]
fn sending_by_the_clock_is_limited_too() {
    let mut state = fresh();
    for _ in 0..8 {
        assert!(state.send_text("x".to_string()).is_some());
    }
    assert!(state.send_message("y".to_string()).is_none());
    assert_eq!(state.status_text, "Слишком часто");
}

#[test]
fn search_ignores_case_and_outer_space() {
    let state = with_log(&[
        (1, "Bob", "Hello there"),
        (2, "alice", "nothing"),
        (3, "eve", "well, HELLO"),
        (4, "HELLOkitty", "meow"),
    ]);
    assert_eq!(texts(&state.search("hello")), vec!["Hello there", "well, HELLO", "meow"]);
    assert_eq!(texts(&state.search("  HeLLo \t")), vec!["Hello there", "well, HELLO", "meow"]);
    assert_eq!(texts(&state.search("bob")), vec!["Hello there"]);
    assert_eq!(texts(&state.search("ПРИВЕТ")), Vec::<&str>::new());
}

#[test]
fn search_for_nothing_finds_nothing() {
    let state = with_log(&[(1, "bob", "yo")]);
    assert!(state.search("").is_empty());
    assert!(state.search("   ").is_empty());
    assert!(state.search("zebra").is_empty());
    assert!(fresh().search("yo").is_empty());
}

#[test]
fn search_matches_inside_words_and_keeps_entries_whole() {
    let state = with_log(&[(7, "Жук", "Привет, МИР"), (8, "bob", "мирный")]);
    let hits = state.search("мир");
    assert_eq!(hits.len(), 2);
    assert_eq!((hits[0].ts_ms, hits[0].username.as_str()), (7, "Жук"));
    assert_eq!(hits[1].text, "мирный");
    assert_eq!(texts(&state.search("жук")), vec!["Привет, МИР"]);
}

#[test]
fn a_copy_of_a_message_is_the_same_message() {
    let m = ChatMessage { ts_ms: 5, username: "bob".to_string(), text: "yo".to_string() };
    let c = m.duplicate();
    assert_eq!((c.ts_ms, c.username, c.text), (5, "bob".to_string(), "yo".to_string()));
}

fn emitted(actions: Vec<NetAction>) -> Vec<NetEvent> {
    actions
        .into_iter()
        .filter_map(|a| match a {
            NetAction::Emit(e) => Some(e),
            _ => None,
        })
        .collect()
}

#[test]
fn a_session_from_connect_to_broadcast() {
    let mut state = fresh();
    let mut server_saw: Vec<Vec<u8>> = Vec::new();

    let cmd = state.connect_to("127.0.0.1".to_string(), 5555, "alice".to_string());
    let (phase, actions) = step(Phase::Idle, NetInput::Command(Some(cmd)));
    assert!(matches!(actions[1], NetAction::Open { ref addr } if addr == "127.0.0.1:5555"));
    let (phase, actions) = step(phase, NetInput::Opened(Ok(())));
    for a in &actions {
        if let NetAction::Write { frame } = a {
            server_saw.push(encode(frame).to_vec());
        }
    }
    assert!(matches!(decode(&server_saw[0]), Ok(Frame::Hello { username }) if username == "alice"));
    let (phase, _) = step(phase, NetInput::Written(Ok(())));

    let ok = encode(&Frame::Okay).to_vec();
    let (phase, actions) = step(phase, NetInput::Reply(Ok((ok[0], ok[5..].to_vec()))));
    assert_eq!(ok[0], T_OK);
    for e in emitted(actions) {
        state.apply_event(e);
    }
    assert!(state.connected);
    assert_eq!(state.status_text, "Подключено");

    let cmd = state.send_text_at(0, "hi".to_string()).expect("a token is there");
    let (phase, actions) = step(phase, NetInput::Command(Some(cmd)));
    for a in &actions {
        if let NetAction::Write { frame } = a {
            server_saw.push(encode(frame).to_vec());
        }
    }
    assert_eq!(server_saw[1], vec![0x02, 0, 0, 0, 6, 0, 0, 0, 2, b'h', b'i']);
    assert!(matches!(decode(&server_saw[1]), Ok(Frame::Msg { text }) if text == "hi"));
    let (phase, _) = step(phase, NetInput::Written(Ok(())));
    assert!(matches!(phase, Phase::Connected));

    let before = state.published;
    let inbound = encode(&Frame::MsgBroadcast {
        ts_ms: 1000,
        username: "bob".to_string(),
        text: "yo".to_string(),
    })
    .to_vec();
    let r = reader_step(inbound[0], &inbound[5..]);
    assert!(r.go_on);
    let out = state.apply_event(r.event.expect("a message"));
    assert_eq!(out.map(|p| p.count), Some(before + 1));
    assert_eq!(state.messages.len(), 1);
    let m = &state.messages[0];
    assert_eq!((m.ts_ms, m.username.as_str(), m.text.as_str()), (1000, "bob", "yo"));
    assert_eq!(state.published, before + 1);
}
