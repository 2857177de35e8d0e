use vstd::prelude::*;

use crate::messages::ClientActorMessage;
use crate::messages::Disconnect;

verus! {

/// Why a websocket is closed: the close code and an optional description.
#[derive(Debug, Clone)]
pub struct CloseReason {
    pub code: u16,
    pub description: Option<String>,
}

/// A frame that a websocket connection receives.
#[derive(Debug)]
pub enum Incoming {
    Text(String),
    Binary(Vec<u8>),
    Continuation,
    Ping(Vec<u8>),
    Pong(Vec<u8>),
    Close(Option<CloseReason>),
    Nop,
    /// The stream reported a protocol error.
    Invalid,
}

/// What a websocket connection does in answer.
#[derive(Debug)]
pub enum Action {
    /// Send a text frame.
    Text(String),
    /// Send a binary frame.
    Binary(Vec<u8>),
    /// Send a ping frame.
    Ping(Vec<u8>),
    /// Send a pong frame.
    Pong(Vec<u8>),
    /// Send a close frame.
    Close(Option<CloseReason>),
    /// Stop the connection.
    Stop,
    /// Note that the peer is alive now.
    Beat,
    /// Hand a chat text to the lobby.
    Forward(ClientActorMessage),
    /// Tell the lobby that the user leaves.
    Leave(Disconnect),
}

/// The answer of a connection that echoes what it receives: a pong for a
/// ping, the same text or binary frame, the same close frame, and nothing
/// for the rest.
pub open spec fn echo_actions(msg: Incoming) -> Seq<Action> {
    match msg {
        Incoming::Ping(p) => seq![Action::Pong(p)],
        Incoming::Text(t) => seq![Action::Text(t)],
        Incoming::Binary(b) => seq![Action::Binary(b)],
        Incoming::Close(r) => seq![Action::Close(r)],
        _ => Seq::empty(),
    }
}

/// The answer that echoes a frame.
pub fn echo(msg: Incoming) -> (actions: Vec<Action>)
    ensures
        actions@ == echo_actions(msg),
{
    let mut actions: Vec<Action> = Vec::new();
    match msg {
        Incoming::Ping(p) => actions.push(Action::Pong(p)),
        Incoming::Text(t) => actions.push(Action::Text(t)),
        Incoming::Binary(b) => actions.push(Action::Binary(b)),
        Incoming::Close(r) => actions.push(Action::Close(r)),
        _ => {},
    }
    proof {
        assert(actions@ =~= echo_actions(msg));
    }
    actions
}

/// An echoing connection gives back what it gets: a pong with the payload
/// of every ping, the same text, binary or close frame, and nothing for a
/// pong, a continuation, a no-op or a protocol error; it never stops itself.
pub proof fn law_echo_gives_back(msg: Incoming)
    ensures
        !echo_actions(msg).contains(Action::Stop),
        echo_actions(msg).len() <= 1,
        msg matches Incoming::Ping(p) ==> echo_actions(msg) =~= seq![Action::Pong(p)],
        msg matches Incoming::Text(t) ==> echo_actions(msg) =~= seq![Action::Text(t)],
        msg matches Incoming::Binary(b) ==> echo_actions(msg) =~= seq![Action::Binary(b)],
        msg matches Incoming::Close(r) ==> echo_actions(msg) =~= seq![Action::Close(r)],
        (msg is Pong || msg is Continuation || msg is Nop || msg is Invalid) ==> echo_actions(
            msg,
        ).len() == 0,
{
    let a = echo_actions(msg);
    if a.contains(Action::Stop) {
        let i = choose|i: int| 0 <= i < a.len() && a[i] == Action::Stop;
        assert(a[i] != Action::Stop);
    }
}

} // verus!
