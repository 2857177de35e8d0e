use ws_lobby::ids::{format_id, parse_id};
use ws_lobby::lobby::{Lobby, Outgoing};
use ws_lobby::messages::{ClientActorMessage, Connect, Disconnect};

const ROOM: &str = "12321412-4212-3212-1312-321212132132";
const ALICE: &str = "67e55044-10b1-426f-9247-bb680e5fe0c8";
const BOB: &str = "a1a2a3a4-b1b2-c1c2-d1d2-d3d4d5d6d7d8";

fn id(text: &str) -> u128 {
    parse_id(text).unwrap()
}

fn connect(lobby: &mut Lobby<u32>, room: &str, user: &str, address: u32) -> Vec<Outgoing> {
    let (joined, connected) =
        lobby.handle_connect(Connect { address, room_id: id(room), user_id: id(user) });
    joined.into_iter().chain(connected).collect()
}

fn delivered(out: &[Outgoing]) -> Vec<(u128, u128, String)> {
    let mut v: Vec<(u128, u128, String)> = out
        .iter()
        .map(|o| match o {
            Outgoing::Deliver { to, message } => (*to, message.user_id, message.message.clone()),
            Outgoing::Unknown { to } => panic!("no connection for {}", to),
        })
        .collect();
    v.sort();
    v
}

#[test]
fn connecting_announces_the_room_to_the_newcomer() {
    let mut lobby: Lobby<u32> = Lobby::default();
    let out = connect(&mut lobby, ROOM, ALICE, 7);
    assert_eq!(
        delivered(&out),
        vec![(id(ALICE), id(ALICE), format!("Connected Lobby: {}", ROOM))]
    );
    assert!(lobby.has_room(id(ROOM)));
    assert!(lobby.has_session(id(ALICE)));
    assert_eq!(lobby.session(id(ALICE)), Some(&7));
}

#[test]
fn chat_text_reaches_the_whole_room_and_the_sender() {
    let mut lobby: Lobby<u32> = Lobby::default();
    connect(&mut lobby, ROOM, ALICE, 1);
    let out = lobby.handle_message(ClientActorMessage {
        user_id: id(ALICE),
        room_id: id(ROOM),
        message: "hello ws".to_string(),
    });
    assert_eq!(delivered(&out), vec![(id(ALICE), id(ALICE), "hello ws".to_string())]);

    connect(&mut lobby, ROOM, BOB, 2);
    let out = lobby.handle_message(ClientActorMessage {
        user_id: id(BOB),
        room_id: id(ROOM),
        message: "hi all".to_string(),
    });
    let mut expected = vec![
        (id(ALICE), id(BOB), "hi all".to_string()),
        (id(BOB), id(BOB), "hi all".to_string()),
    ];
    expected.sort();
    assert_eq!(delivered(&out), expected);
}

#[test]
fn joining_is_announced_to_the_others_only() {
    let mut lobby: Lobby<u32> = Lobby::default();
    connect(&mut lobby, ROOM, ALICE, 1);
    let out = connect(&mut lobby, ROOM, BOB, 2);
    // The join notice goes to Alice alone and comes first.
    match &out[0] {
        Outgoing::Deliver { to, message } => {
            assert_eq!(*to, id(ALICE));
            assert_eq!(message.user_id, id(BOB));
            assert_eq!(message.message, format!("User: [{}] has joined the room", BOB));
        }
        Outgoing::Unknown { .. } => panic!("expected a delivery"),
    }
    let mut expected = vec![
        (id(ALICE), id(BOB), format!("User: [{}] has joined the room", BOB)),
        (id(ALICE), id(BOB), format!("Connected Lobby: {}", ROOM)),
        (id(BOB), id(BOB), format!("Connected Lobby: {}", ROOM)),
    ];
    expected.sort();
    assert_eq!(delivered(&out), expected);
}

#[test]
fn leaving_is_announced_and_empties_the_room() {
    let mut lobby: Lobby<u32> = Lobby::default();
    connect(&mut lobby, ROOM, ALICE, 1);
    connect(&mut lobby, ROOM, BOB, 2);
    let out = lobby.handle_disconnect(Disconnect { user_id: id(BOB), room_id: id(ROOM) });
    assert_eq!(
        delivered(&out),
        vec![(id(ALICE), id(BOB), format!("User: [{}] has left the room", BOB))]
    );
    assert!(!lobby.has_session(id(BOB)));
    assert!(lobby.has_room(id(ROOM)));
    let out = lobby.handle_disconnect(Disconnect { user_id: id(ALICE), room_id: id(ROOM) });
    assert!(out.is_empty());
    assert!(!lobby.has_room(id(ROOM)));
    assert!(lobby.user_ids().is_empty());
}

#[test]
fn leaving_without_a_connection_changes_nothing() {
    let mut lobby: Lobby<u32> = Lobby::default();
    connect(&mut lobby, ROOM, ALICE, 1);
    let out = lobby.handle_disconnect(Disconnect { user_id: id(BOB), room_id: id(BOB) });
    assert!(out.is_empty());
    assert!(lobby.has_room(id(ROOM)));
    assert_eq!(lobby.user_ids(), vec![id(ALICE)]);
}

#[test]
fn disconnect_undoes_connect_on_concrete_values() {
    let mut lobby: Lobby<u32> = Lobby::default();
    connect(&mut lobby, ROOM, ALICE, 1);
    connect(&mut lobby, ROOM, BOB, 2);
    lobby.handle_disconnect(Disconnect { user_id: id(BOB), room_id: id(ROOM) });
    assert_eq!(lobby.user_ids(), vec![id(ALICE)]);
    assert!(lobby.has_room(id(ROOM)));
    let out = lobby.handle_message(ClientActorMessage {
        user_id: id(ALICE),
        room_id: id(ROOM),
        message: "still here".to_string(),
    });
    assert_eq!(delivered(&out), vec![(id(ALICE), id(ALICE), "still here".to_string())]);
}

#[test]
fn whisper_goes_to_the_named_user_only() {
    let mut lobby: Lobby<u32> = Lobby::default();
    connect(&mut lobby, ROOM, ALICE, 1);
    connect(&mut lobby, ROOM, BOB, 2);
    let text = format!("\\w {} psst", BOB);
    let out = lobby.handle_message(ClientActorMessage {
        user_id: id(ALICE),
        room_id: id(ROOM),
        message: text.clone(),
    });
    assert_eq!(
        delivered(&out),
        vec![(id(BOB), id(ALICE), format!("Whisper from [{}]: {}", ALICE, text))]
    );
}

#[test]
fn whisper_accepts_any_uuid_form_and_white_space() {
    let mut lobby: Lobby<u32> = Lobby::default();
    connect(&mut lobby, ROOM, BOB, 2);
    let simple = BOB.replace('-', "").to_uppercase();
    let text = format!("\\w\t\n {}  x", simple);
    let out = lobby.handle_message(ClientActorMessage {
        user_id: id(ALICE),
        room_id: id(ROOM),
        message: text.clone(),
    });
    assert_eq!(out.len(), 1);
    match &out[0] {
        Outgoing::Deliver { to, .. } => assert_eq!(*to, id(BOB)),
        Outgoing::Unknown { .. } => panic!("expected a delivery"),
    }
}

#[test]
fn whisper_to_an_absent_user_is_reported() {
    let lobby: Lobby<u32> = Lobby::default();
    let out = lobby.handle_message(ClientActorMessage {
        user_id: id(ALICE),
        room_id: id(ROOM),
        message: format!("\\w {}", BOB),
    });
    assert_eq!(out.len(), 1);
    match &out[0] {
        Outgoing::Unknown { to } => assert_eq!(*to, id(BOB)),
        Outgoing::Deliver { .. } => panic!("expected an unknown recipient"),
    }
}

#[test]
fn whisper_without_a_valid_target_sends_nothing() {
    let mut lobby: Lobby<u32> = Lobby::default();
    connect(&mut lobby, ROOM, ALICE, 1);
    for text in ["\\w", "\\w   ", "\\w not-an-id hello", "\\wx"] {
        let out = lobby.handle_message(ClientActorMessage {
            user_id: id(ALICE),
            room_id: id(ROOM),
            message: text.to_string(),
        });
        assert!(out.is_empty(), "{:?}", text);
    }
}

#[test]
fn send_message_to_an_unknown_user_is_reported() {
    let mut lobby: Lobby<u32> = Lobby::default();
    connect(&mut lobby, ROOM, ALICE, 1);
    match lobby.send_message(id(ALICE), id(BOB), "x") {
        Outgoing::Unknown { to } => assert_eq!(to, id(BOB)),
        Outgoing::Deliver { .. } => panic!("expected an unknown recipient"),
    }
    match lobby.send_message(id(BOB), id(ALICE), "x") {
        Outgoing::Deliver { to, message } => {
            assert_eq!(to, id(ALICE));
            assert_eq!(message.user_id, id(BOB));
            assert_eq!(message.message, "x");
        }
        Outgoing::Unknown { .. } => panic!("expected a delivery"),
    }
}

#[test]
fn identifiers_format_as_hyphenated_lowercase() {
    assert_eq!(format_id(id(ROOM)), ROOM);
    assert_eq!(format_id(0xa1a2a3a4b1b2c1c2d1d2d3d4d5d6d7d8), BOB);
    assert_eq!(format_id(0), "00000000-0000-0000-0000-000000000000");
    assert_eq!(parse_id("nope"), None);
    assert_eq!(parse_id(&format_id(12345)), Some(12345));
}

#[test]
fn join_and_connected_notices_come_apart() {
    let mut lobby: Lobby<u32> = Lobby::default();
    let (joined, connected) =
        lobby.handle_connect(Connect { address: 1, room_id: id(ROOM), user_id: id(ALICE) });
    assert!(joined.is_empty());
    assert_eq!(connected.len(), 1);
    let (joined, connected) =
        lobby.handle_connect(Connect { address: 2, room_id: id(ROOM), user_id: id(BOB) });
    assert_eq!(delivered(&joined), vec![(id(ALICE), id(BOB), format!("User: [{}] has joined the room", BOB))]);
    assert_eq!(connected.len(), 2);
}

#[test]
fn leaving_twice_is_leaving_once() {
    let mut lobby: Lobby<u32> = Lobby::default();
    connect(&mut lobby, ROOM, ALICE, 1);
    connect(&mut lobby, ROOM, BOB, 2);
    let first = lobby.handle_disconnect(Disconnect { user_id: id(BOB), room_id: id(ROOM) });
    assert_eq!(first.len(), 1);
    let second = lobby.handle_disconnect(Disconnect { user_id: id(BOB), room_id: id(ROOM) });
    assert!(second.is_empty());
    assert_eq!(lobby.user_ids(), vec![id(ALICE)]);
    assert!(lobby.has_room(id(ROOM)));
}

#[test]
fn identifiers_parse_in_every_form() {
    let n = id(BOB);
    let simple = BOB.replace('-', "");
    assert_eq!(parse_id(&simple), Some(n));
    assert_eq!(parse_id(&simple.to_uppercase()), Some(n));
    assert_eq!(parse_id(&format!("{{{}}}", BOB)), Some(n));
    assert_eq!(parse_id(&format!("urn:uuid:{}", BOB)), Some(n));
    assert_eq!(parse_id(&format!("URN:UUID:{}", BOB.to_uppercase())), Some(n));
    assert_eq!(parse_id(&format!("urn:uuix:{}", BOB)), None);
    assert_eq!(parse_id(&format!("{{{}]", BOB)), None);
    assert_eq!(parse_id(&BOB.replace('-', "+")), None);
    assert_eq!(parse_id(&format!("{}0", simple)), None);
    assert_eq!(parse_id(&simple.replace('a', "g")), None);
}
