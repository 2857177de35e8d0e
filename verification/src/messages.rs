use vstd::prelude::*;

verus! {

/// A chat text delivered to a connection: who it is from and what it says.
#[derive(Debug, Clone)]
pub struct WsMessage {
    pub user_id: u128,
    pub message: String,
}

impl WsMessage {
    pub fn new(user_id: u128, message: String) -> (m: Self)
        ensures
            m.user_id == user_id,
            m.message@ == message@,
    {
        WsMessage { user_id, message }
    }
}

/// A connection asks to join a room; `address` is how the lobby reaches it.
pub struct Connect<S> {
    pub address: S,
    pub room_id: u128,
    pub user_id: u128,
}

/// A connection leaves a room.
#[derive(Debug, Clone, Copy)]
pub struct Disconnect {
    pub user_id: u128,
    pub room_id: u128,
}

/// A chat text that a connection sent to its room.
#[derive(Debug, Clone)]
pub struct ClientActorMessage {
    pub user_id: u128,
    pub room_id: u128,
    pub message: String,
}

} // verus!
