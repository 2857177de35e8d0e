# ws_lobby

A websocket chat lobby. Users connect to rooms; the lobby tells the others of
a room when someone joins or leaves, hands every chat text to the whole room,
and sends a whisper (`\w <user id> ...`) to one user only.

- `src/` is the verified library: the lobby's state and handlers
  (`lobby.rs`), the messages (`messages.rs`), the decisions of the websocket
  connections (`ws.rs`, `another_ws.rs`, `start_connection.rs`, `frames.rs`),
  the page texts (`routes.rs`), identifiers (`ids.rs`, through the `uuid`
  crate) and text helpers (`text.rs`).
- `app/` is the actix-web server around it: the actors, the routes, and the
  actix messages with their serde and actix derives.
- `tests/` runs the library on concrete values.
