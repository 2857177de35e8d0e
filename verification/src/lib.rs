//! The decision logic of a websocket chat lobby: rooms of users, the
//! messages that joining, leaving and chatting produce, and the replies of
//! the websocket connections to the frames they receive.

pub mod ids;
pub mod text;
pub mod messages;
pub mod lobby;
pub mod frames;
pub mod start_connection;
pub mod ws;
pub mod another_ws;
pub mod routes;
