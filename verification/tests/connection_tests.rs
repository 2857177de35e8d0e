use ws_lobby::another_ws::AnotherWsConn;
use ws_lobby::frames::{echo, Action, CloseReason, Incoming};
use ws_lobby::ids::format_id;
use ws_lobby::routes::{hello, index};
use ws_lobby::start_connection::TestWs;
use ws_lobby::text::{decimal_text, is_white_space, is_whisper, second_word_of};
use ws_lobby::ws::{WsConn, HEARTBEAT_TIMEOUT_NANOS};

fn texts(actions: &[Action]) -> Vec<String> {
    actions
        .iter()
        .map(|a| match a {
            Action::Text(t) => t.clone(),
            other => panic!("expected a text, got {:?}", other),
        })
        .collect()
}

#[test]
fn front_page_and_greeting() {
    assert_eq!(index(), "Hello world!");
    assert_eq!(hello("actix"), "Hello actix!");
}

#[test]
fn counting_connections_share_one_count() {
    let mut count = 0i32;
    let first = AnotherWsConn::new((), 20);
    assert_eq!(first.started(), "AnotherWsConn started: 20");
    let a = first.handle(Incoming::Text("hello ws".to_string()), &mut count);
    let b = first.handle(Incoming::Text("hello ws!".to_string()), &mut count);
    let second = AnotherWsConn::new((), 21);
    assert_eq!(second.started(), "AnotherWsConn started: 21");
    let c = second.handle(Incoming::Text("hello ws#".to_string()), &mut count);
    assert_eq!(texts(&a), vec!["counter: 1 - msg: hello ws"]);
    assert_eq!(texts(&b), vec!["counter: 2 - msg: hello ws!"]);
    assert_eq!(texts(&c), vec!["counter: 3 - msg: hello ws#"]);
    assert_eq!(count, 3);
}

#[test]
fn counting_connection_echoes_other_frames() {
    let mut count = 5i32;
    let conn = AnotherWsConn::new((), -7);
    assert_eq!(conn.started(), "AnotherWsConn started: -7");
    let out = conn.handle(Incoming::Ping(vec![1, 2]), &mut count);
    assert!(matches!(&out[..], [Action::Pong(p)] if p == &vec![1, 2]));
    let out = conn.handle(Incoming::Pong(vec![3]), &mut count);
    assert!(out.is_empty());
    let out = conn.handle(Incoming::Nop, &mut count);
    assert!(out.is_empty());
    assert_eq!(count, 5);
}

#[test]
fn decimal_text_matches_display() {
    for n in [0, 7, 10, 42, -1, -10, 1000000, i32::MAX, i32::MIN] {
        assert_eq!(decimal_text(n), n.to_string());
    }
}

#[test]
fn echo_connection_answers_in_kind() {
    let t = TestWs {};
    assert_eq!(texts(&t.handle(Incoming::Text("x".to_string()))), vec!["x"]);
    assert!(matches!(&t.handle(Incoming::Binary(vec![9]))[..], [Action::Binary(b)] if b == &vec![9]));
    assert!(matches!(&t.handle(Incoming::Ping(vec![4]))[..], [Action::Pong(b)] if b == &vec![4]));
    let reason = CloseReason { code: 1000, description: Some("bye".to_string()) };
    match &t.handle(Incoming::Close(Some(reason)))[..] {
        [Action::Close(Some(r))] => {
            assert_eq!(r.code, 1000);
            assert_eq!(r.description.as_deref(), Some("bye"));
        }
        other => panic!("unexpected {:?}", other),
    }
    assert!(t.handle(Incoming::Pong(vec![])).is_empty());
    assert!(t.handle(Incoming::Continuation).is_empty());
    assert!(t.handle(Incoming::Invalid).is_empty());
    assert!(echo(Incoming::Nop).is_empty());
}

#[test]
fn chat_connection_forwards_texts_and_tracks_liveness() {
    let conn = WsConn::with_id(11, "lobby", 22);
    match &conn.handle(Incoming::Text("hi".to_string()))[..] {
        [Action::Forward(m)] => {
            assert_eq!(m.user_id, 22);
            assert_eq!(m.room_id, 11);
            assert_eq!(m.message, "hi");
        }
        other => panic!("unexpected {:?}", other),
    }
    assert!(matches!(&conn.handle(Incoming::Ping(vec![1]))[..], [Action::Beat, Action::Pong(p)] if p == &vec![1]));
    assert!(matches!(&conn.handle(Incoming::Pong(vec![]))[..], [Action::Beat]));
    assert!(matches!(&conn.handle(Incoming::Close(None))[..], [Action::Close(None), Action::Stop]));
    assert!(matches!(&conn.handle(Incoming::Continuation)[..], [Action::Stop]));
    assert!(conn.handle(Incoming::Nop).is_empty());
    assert!(matches!(&conn.handle(Incoming::Binary(vec![5]))[..], [Action::Binary(b)] if b == &vec![5]));

    match &conn.heartbeat(HEARTBEAT_TIMEOUT_NANOS)[..] {
        [Action::Ping(p)] => assert_eq!(p, b"PING"),
        other => panic!("unexpected {:?}", other),
    }
    match &conn.heartbeat(HEARTBEAT_TIMEOUT_NANOS + 1)[..] {
        [Action::Leave(d), Action::Stop] => {
            assert_eq!(d.user_id, 22);
            assert_eq!(d.room_id, 11);
        }
        other => panic!("unexpected {:?}", other),
    }
    let c = conn.connect_message(99u8);
    assert_eq!((c.address, c.room_id, c.user_id), (99, 11, 22));
    assert_eq!(*conn.lobby_address(), "lobby");
}

#[test]
fn new_connections_get_random_version_four_ids() {
    let a = WsConn::new(1, ());
    let b = WsConn::new(1, ());
    assert_ne!(a.id(), b.id());
    for id in [a.id(), b.id()] {
        assert_eq!((id >> 76) & 0xf, 4);
        assert_eq!((id >> 62) & 0x3, 2);
        assert_eq!(format_id(id).chars().nth(14), Some('4'));
    }
    assert_eq!(a.room_id(), 1);
}

#[test]
fn words_and_whisper_marker() {
    assert_eq!(second_word_of("  one\ttwo three"), Some("two"));
    assert_eq!(second_word_of("one"), None);
    assert_eq!(second_word_of(""), None);
    assert_eq!(second_word_of("a\u{3000}b"), Some("b"));
    assert!(is_whisper("\\whatever"));
    assert!(!is_whisper("w\\"));
    assert!(!is_whisper("\\"));
}

#[test]
fn white_space_is_exactly_what_std_says() {
    for n in 0u32..0x11000 {
        if let Some(c) = char::from_u32(n) {
            assert_eq!(is_white_space(c), c.is_whitespace(), "{:#x}", n);
        }
    }
    assert_eq!(second_word_of("\\w x y"), Some("x"));
}
