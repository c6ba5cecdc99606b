//! Client records and the coarse message kinds shared by client and server.

use vstd::prelude::*;

verus! {

/// Represents the current connection state of a client.
#[derive(Debug, Clone, Copy, PartialEq, Eq, Structural)]
pub enum ClientState {
    /// Client is not connected to any server.
    Disconnected,
    /// Client is in the process of establishing a connection.
    Connecting,
    /// Client has successfully authenticated and is connected.
    Authenticated,
}

/// Represents a client/user in the chat server system.
#[derive(Debug, Clone)]
pub struct Client {
    /// Unique identifier for the client (0 = unassigned).
    pub uid: i32,
    /// The client's username for display and login.
    pub username: String,
    /// The client's password.
    pub password: String,
    /// Current connection state of the client.
    pub state: ClientState,
}

impl Client {
    /// Creates a new client with the given username and password.
    /// The new client starts in the `Disconnected` state with uid 0.
    pub fn new(username: &str, password: &str) -> (c: Client)
        ensures
            c.uid == 0,
            c.username@ == username@,
            c.password@ == password@,
            c.state == ClientState::Disconnected,
    {
        Client {
            uid: 0,
            username: username.to_owned(),
            password: password.to_owned(),
            state: ClientState::Disconnected,
        }
    }
}

/// Message kinds that can be sent between client and server.
#[derive(Debug, Clone)]
pub enum Message {
    /// Login request containing client credentials.
    Login(Client),
    /// Request to disconnect from the server.
    Disconnect(Client),
    /// Request to join a room.
    JoinRoom,
    /// Request to leave a room.
    LeaveRoom,
    /// Request to list all available rooms.
    ListRooms,
    /// Text message to be sent to other clients.
    SendMessage(String),
}

/// Errors the server can report to a client.
#[derive(Debug, Clone)]
pub enum ServerError {
    InvalidCredentials(String),
    AlreadyLoggedIn(String),
    ConnectionFailed(String),
    ServerFull(String),
    TextFormattingError(String),
    UnknownError(String),
}

} // verus!
