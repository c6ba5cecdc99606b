//! The messages exchanged between client and server over the WebSocket.
//!
//! On the wire each message is a JSON object tagged by a `"type"` field:
//! `authenticate`, `send`, `join` and `logout` from the client;
//! `auth_result`, `chat`, `join_room`, `notification`, `user_logout` and
//! `error` from the server.

use vstd::prelude::*;

verus! {

/// Socket message to authenticate and register a new client.
#[derive(Debug, Clone)]
pub struct AuthenticateUser {
    /// The client's username for login.
    pub username: String,
    /// The client's password.
    pub password: String,
    /// The room to join, created if it does not exist.
    pub room_name: String,
}

/// Socket message to broadcast content.
#[derive(Debug, Clone)]
pub struct SendMessage {
    /// The client's username for display.
    pub username: String,
    /// The message to send to the room.
    pub message: String,
}

/// Socket message to log the client out.
#[derive(Debug, Clone)]
pub struct Logout {
    /// Optional message to broadcast before leaving.
    pub message: String,
}

/// Socket message to join a room.
#[derive(Debug, Clone)]
pub struct Room {
    /// The client's username for display.
    pub username: String,
    /// Room to join or create.
    pub room_name: String,
}

/// Messages the client can send to the server.
#[derive(Debug)]
pub enum ClientMessage {
    /// `authenticate`: first message of a session.
    Authenticate(AuthenticateUser),
    /// `send`: broadcast a text to the current room.
    Broadcast(SendMessage),
    /// `join`: move to an existing room or create a new one.
    JoinRoom(Room),
    /// `logout`: graceful disconnection.
    Logout(Logout),
}

/// Messages the server can send to the client.
#[derive(Debug)]
pub enum ServerMessage {
    /// `auth_result`: authentication response.
    AuthResult { success: bool, msg: Option<String> },
    /// `chat`: a chat message from a user of the room.
    Chat { sender: String, message: String, timestamp: String },
    /// `join_room`: response to a room join request.
    JoinRoom { success: bool, created: bool, room_name: String },
    /// `notification`: a system notification.
    Notification { value: String, timestamp: String },
    /// `user_logout`: another user left the current room.
    UserLogoutNtf { value: String, timestamp: String },
    /// `error`: an error in the server.
    Error { value: String },
}

/// A client message with its texts taken as character sequences.
pub enum ClientMessageView {
    Authenticate { username: Seq<char>, password: Seq<char>, room_name: Seq<char> },
    Broadcast { username: Seq<char>, message: Seq<char> },
    JoinRoom { username: Seq<char>, room_name: Seq<char> },
    Logout { message: Seq<char> },
}

impl View for ClientMessage {
    type V = ClientMessageView;

    open spec fn view(&self) -> ClientMessageView {
        match self {
            ClientMessage::Authenticate(a) => ClientMessageView::Authenticate {
                username: a.username@,
                password: a.password@,
                room_name: a.room_name@,
            },
            ClientMessage::Broadcast(m) => ClientMessageView::Broadcast {
                username: m.username@,
                message: m.message@,
            },
            ClientMessage::JoinRoom(r) => ClientMessageView::JoinRoom {
                username: r.username@,
                room_name: r.room_name@,
            },
            ClientMessage::Logout(l) => ClientMessageView::Logout { message: l.message@ },
        }
    }
}

/// A server message with its texts taken as character sequences.
pub enum ServerMessageView {
    AuthResult { success: bool, msg: Option<Seq<char>> },
    Chat { sender: Seq<char>, message: Seq<char>, timestamp: Seq<char> },
    JoinRoom { success: bool, created: bool, room_name: Seq<char> },
    Notification { value: Seq<char>, timestamp: Seq<char> },
    UserLogoutNtf { value: Seq<char>, timestamp: Seq<char> },
    Error { value: Seq<char> },
}

impl View for ServerMessage {
    type V = ServerMessageView;

    open spec fn view(&self) -> ServerMessageView {
        match self {
            ServerMessage::AuthResult { success, msg } => ServerMessageView::AuthResult {
                success: *success,
                msg: match msg {
                    Some(m) => Some(m@),
                    None => None,
                },
            },
            ServerMessage::Chat { sender, message, timestamp } => ServerMessageView::Chat {
                sender: sender@,
                message: message@,
                timestamp: timestamp@,
            },
            ServerMessage::JoinRoom { success, created, room_name } => ServerMessageView::JoinRoom {
                success: *success,
                created: *created,
                room_name: room_name@,
            },
            ServerMessage::Notification { value, timestamp } => ServerMessageView::Notification {
                value: value@,
                timestamp: timestamp@,
            },
            ServerMessage::UserLogoutNtf { value, timestamp } => ServerMessageView::UserLogoutNtf {
                value: value@,
                timestamp: timestamp@,
            },
            ServerMessage::Error { value } => ServerMessageView::Error { value: value@ },
        }
    }
}

} // verus!
