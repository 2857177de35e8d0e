use vstd::prelude::*;

use crate::frames::Action;
use crate::frames::Incoming;
use crate::ids::is_random_id;
use crate::ids::random_id;
use crate::messages::ClientActorMessage;
use crate::messages::Connect;
use crate::messages::Disconnect;

verus! {

/// How often, in seconds, a connection pings its peer.
pub const HEARTBEAT_INTERVAL_SECS: u64 = 5;

/// How long, in nanoseconds, a connection waits for a sign of life of its
/// peer before it gives up: ten seconds.
pub const HEARTBEAT_TIMEOUT_NANOS: u128 = 10_000_000_000;

/// A user's websocket connection to a chat room; `A` is how it reaches the lobby.
pub struct WsConn<A> {
    room_id: u128,
    lobby_address: A,
    id: u128,
}

/// The payload of the pings that a connection sends: the bytes of `PING`.
pub open spec fn ping_payload() -> Seq<u8> {
    seq![80u8, 73u8, 78u8, 71u8]
}

/// What a connection does with a frame from its peer: a ping or a pong shows
/// that the peer is alive, and a ping is answered with a pong; a binary
/// frame is echoed; a close frame is answered and the connection stops; a
/// continuation frame stops it; a text goes to the lobby as the user's chat
/// text for the room.
pub open spec fn conn_actions(user_id: u128, room_id: u128, msg: Incoming) -> Seq<Action> {
    match msg {
        Incoming::Ping(p) => seq![Action::Beat, Action::Pong(p)],
        Incoming::Pong(_) => seq![Action::Beat],
        Incoming::Binary(b) => seq![Action::Binary(b)],
        Incoming::Close(r) => seq![Action::Close(r), Action::Stop],
        Incoming::Continuation => seq![Action::Stop],
        Incoming::Text(s) => seq![
            Action::Forward(ClientActorMessage { user_id, room_id, message: s }),
        ],
        _ => Seq::empty(),
    }
}

impl<A> WsConn<A> {
    /// The room of the connection.
    pub closed spec fn room_spec(&self) -> u128 {
        self.room_id
    }

    /// The user of the connection.
    pub closed spec fn id_spec(&self) -> u128 {
        self.id
    }

    /// How the connection reaches the lobby.
    pub closed spec fn lobby_spec(&self) -> A {
        self.lobby_address
    }

    /// A connection to `room` for a fresh random user.
    pub fn new(room: u128, lobby_address: A) -> (conn: Self)
        ensures
            conn.room_spec() == room,
            conn.lobby_spec() == lobby_address,
            is_random_id(conn.id_spec()),
    {
        let id = random_id();
        Self::with_id(room, lobby_address, id)
    }

    /// A connection to `room` for user `id`.
    pub fn with_id(room: u128, lobby_address: A, id: u128) -> (conn: Self)
        ensures
            conn.room_spec() == room,
            conn.lobby_spec() == lobby_address,
            conn.id_spec() == id,
    {
        WsConn { room_id: room, lobby_address, id }
    }

    pub fn room_id(&self) -> (r: u128)
        ensures
            r == self.room_spec(),
    {
        self.room_id
    }

    pub fn id(&self) -> (r: u128)
        ensures
            r == self.id_spec(),
    {
        self.id
    }

    pub fn lobby_address(&self) -> (a: &A)
        ensures
            *a == self.lobby_spec(),
    {
        &self.lobby_address
    }

    /// The request to join the room that the connection sends when it starts.
    pub fn connect_message<S>(&self, address: S) -> (msg: Connect<S>)
        ensures
            msg.address == address,
            msg.room_id == self.room_spec(),
            msg.user_id == self.id_spec(),
    {
        Connect { address, room_id: self.room_id, user_id: self.id }
    }

    /// The notice of leaving the room that the connection sends when it stops.
    pub fn disconnect_message(&self) -> (msg: Disconnect)
        ensures
            msg.room_id == self.room_spec(),
            msg.user_id == self.id_spec(),
    {
        Disconnect { user_id: self.id, room_id: self.room_id }
    }

    /// Answers a frame from the peer.
    pub fn handle(&self, msg: Incoming) -> (actions: Vec<Action>)
        requires
            !(msg is Invalid),
        ensures
            actions@ == conn_actions(self.id_spec(), self.room_spec(), msg),
    {
        let mut actions: Vec<Action> = Vec::new();
        match msg {
            Incoming::Ping(p) => {
                actions.push(Action::Beat);
                actions.push(Action::Pong(p));
            },
            Incoming::Pong(_) => {
                actions.push(Action::Beat);
            },
            Incoming::Binary(b) => {
                actions.push(Action::Binary(b));
            },
            Incoming::Close(r) => {
                actions.push(Action::Close(r));
                actions.push(Action::Stop);
            },
            Incoming::Continuation => {
                actions.push(Action::Stop);
            },
            Incoming::Nop => {},
            Incoming::Text(s) => {
                actions.push(
                    Action::Forward(
                        ClientActorMessage { user_id: self.id, room_id: self.room_id, message: s },
                    ),
                );
            },
            Incoming::Invalid => {},
        }
        proof {
            assert(actions@ =~= conn_actions(self.id_spec(), self.room_spec(), msg));
        }
        actions
    }

    /// The periodic heartbeat check, given the nanoseconds since the peer
    /// last showed a sign of life: past the timeout the connection tells the
    /// lobby that the user leaves and stops; otherwise it pings the peer.
    pub fn heartbeat(&self, elapsed_nanos: u128) -> (actions: Vec<Action>)
        ensures
            elapsed_nanos > HEARTBEAT_TIMEOUT_NANOS ==> actions@ == seq![
                Action::Leave(Disconnect { user_id: self.id_spec(), room_id: self.room_spec() }),
                Action::Stop,
            ],
            elapsed_nanos <= HEARTBEAT_TIMEOUT_NANOS ==> actions@.len() == 1 && (actions@[0] matches Action::Ping(p) && p@ == ping_payload()),
    {
        let mut actions: Vec<Action> = Vec::new();
        if elapsed_nanos > HEARTBEAT_TIMEOUT_NANOS {
            actions.push(Action::Leave(self.disconnect_message()));
            actions.push(Action::Stop);
        } else {
            let mut payload: Vec<u8> = Vec::new();
            payload.push(80u8);
            payload.push(73u8);
            payload.push(78u8);
            payload.push(71u8);
            actions.push(Action::Ping(payload));
        }
        proof {
            if elapsed_nanos > HEARTBEAT_TIMEOUT_NANOS {
                assert(actions@ =~= seq![
                    Action::Leave(Disconnect { user_id: self.id_spec(), room_id: self.room_spec() }),
                    Action::Stop,
                ]);
            } else {
                assert(actions@[0] matches Action::Ping(p) && p@ =~= ping_payload());
            }
        }
        actions
    }
}

/// Every ping and every pong, whatever its payload, shows that the peer is
/// alive; a ping is answered with a pong that carries the same payload.
pub proof fn law_ping_and_pong_show_liveness(user_id: u128, room_id: u128, payload: Vec<u8>)
    ensures
        conn_actions(user_id, room_id, Incoming::Pong(payload)) =~= seq![Action::Beat],
        conn_actions(user_id, room_id, Incoming::Ping(payload)).len() == 2,
        conn_actions(user_id, room_id, Incoming::Ping(payload))[0] == Action::Beat,
        conn_actions(user_id, room_id, Incoming::Ping(payload))[1] == Action::Pong(payload),
{
}

/// Every text, whatever it says, goes to the lobby once, unchanged, as the
/// connection's user's chat text for the connection's room; nothing else is
/// done with it.
pub proof fn law_text_is_forwarded(user_id: u128, room_id: u128, text: String)
    ensures
        conn_actions(user_id, room_id, Incoming::Text(text)).len() == 1,
        conn_actions(user_id, room_id, Incoming::Text(text))[0] matches Action::Forward(m)
            && m.user_id == user_id && m.room_id == room_id && m.message == text,
{
}

/// Only a close or a continuation frame stops the connection, and no frame
/// but a text reaches the lobby.
pub proof fn law_only_close_and_continuation_stop(user_id: u128, room_id: u128, msg: Incoming)
    ensures
        conn_actions(user_id, room_id, msg).contains(Action::Stop) <==> (msg is Close
            || msg is Continuation),
        (exists|i: int|
            0 <= i < conn_actions(user_id, room_id, msg).len() && #[trigger] conn_actions(
                user_id,
                room_id,
                msg,
            )[i] is Forward) ==> msg is Text,
{
    let a = conn_actions(user_id, room_id, msg);
    if msg is Close {
        assert(a[1] == Action::Stop);
    }
    if msg is Continuation {
        assert(a[0] == Action::Stop);
    }
}

/// The peer is given ten seconds, and is pinged every five, with the bytes
/// of the ASCII text `PING`.
pub proof fn law_heartbeat_timing()
    ensures
        HEARTBEAT_TIMEOUT_NANOS == 10 * 1_000_000_000u128,
        HEARTBEAT_INTERVAL_SECS == 5,
        ping_payload() =~= seq!['P' as u8, 'I' as u8, 'N' as u8, 'G' as u8],
{
}

} // verus!
