# chatter

A WebSocket chat server with rooms, and a terminal client. The library in
`src/` holds the logic with Verus contracts and proofs; `app/` is the program
around it (sockets, the async tasks, JSON, the terminal UI).

- `broker_model.rs`, `broker.rs`, `broker_laws.rs`: the broker. Its state is
  the connected clients by address (name, room, channel) and each room's
  members; `Broker::step` is proved to update it and to produce the messages
  exactly as the model says, `Broker::route` to pair each message with its
  recipient's channel, and `Broker::handle_event` returns as ghost the plan
  it computed (each message with its channel), proved equal to the model's
  `step_sends`. The laws state what holds across events (rooms stay
  consistent, a broadcast is planned for exactly the channels of the
  sender's room, refused requests change nothing, a leaving client is
  announced to the rest of its room). That the plan is then sent, and that a
  channel's receiver gets what was sent, is not proved: tying a send to its
  call would take linear ghost state, which this crate does not use, and the
  channels are tokio's.
- `broker_msgs.rs`: the broker's messages and their conversion to protocol
  messages.
- `connection.rs`: the handshake of a connection and how each frame becomes
  a broker event; a connection always ends with one disconnect.
- `users.rs`: the Argon2 user store; a user that registered logs in again
  with the same password.
- `client.rs`: the client's state and decisions.
- `keyed.rs`: sequences of key/value pairs read as maps.
