//! The chat client's state and decisions: who the user is, what a typed
//! line asks for, and what to show for a message of the server.

use vstd::prelude::*;

use crate::ws_messages::{ServerMessage, ServerMessageView};

verus! {

/// The client's settings and session state.
#[derive(Debug)]
pub struct Context {
    /// Server IP address.
    pub server_ip: String,
    /// Server port.
    pub server_port: u16,
    /// User name (empty until set).
    pub username: String,
    /// Password (empty until set).
    pub password: String,
    /// Whether the client is connected.
    pub connected: bool,
    /// Room to join.
    pub room: String,
}

/// The name shown for a user name: the name, or `Not defined` when empty.
pub open spec fn shown_user(name: Seq<char>) -> Seq<char> {
    if name.len() == 0 {
        "Not defined"@
    } else {
        name
    }
}

impl Context {
    /// A disconnected client with the given settings; a missing user name or
    /// password is empty.
    pub fn new(
        cli_user: Option<String>,
        password: Option<String>,
        server_ip: String,
        server_port: u16,
        room: String,
    ) -> (c: Self)
        ensures
            c.username@ == (match cli_user {
                Some(u) => u@,
                None => Seq::empty(),
            }),
            c.password@ == (match password {
                Some(p) => p@,
                None => Seq::empty(),
            }),
            c.server_ip == server_ip,
            c.server_port == server_port,
            c.room == room,
            !c.connected,
    {
        let username = match cli_user {
            Some(u) => u,
            None => String::new(),
        };
        let password = match password {
            Some(p) => p,
            None => String::new(),
        };
        Context { server_ip, server_port, username, password, connected: false, room }
    }

    /// The user name to show.
    pub fn get_user(&self) -> (r: String)
        ensures
            r@ == shown_user(self.username@),
    {
        if self.username.as_str().is_empty() {
            "Not defined".to_owned()
        } else {
            self.username.clone()
        }
    }

    /// Records whether the client is connected and returns the status text
    /// to show.
    pub fn set_connection_status(&mut self, connected: bool) -> (label: String)
        ensures
            final(self).connected == connected,
            final(self).username == old(self).username,
            final(self).password == old(self).password,
            final(self).room == old(self).room,
            final(self).server_ip == old(self).server_ip,
            final(self).server_port == old(self).server_port,
            label@ == (if connected { "Connected"@ } else { "Disconnected"@ }),
    {
        self.connected = connected;
        if connected {
            "Connected".to_owned()
        } else {
            "Disconnected".to_owned()
        }
    }
}

/// What a line typed by the user asks for.
#[derive(Debug, Clone, Copy, PartialEq, Eq, Structural)]
pub enum Command {
    /// An empty line: nothing.
    Nothing,
    /// `/help`: show the commands.
    Help,
    /// `/clear`: clear the messages.
    Clear,
    /// `/connect`: open the connection dialog.
    Connect,
    /// `/debug`: show or hide the log.
    Debug,
    /// `/quit`: leave.
    Quit,
    /// Any other line.
    Other,
}

/// The command of a typed line.
pub open spec fn command_of(line: Seq<char>) -> Command {
    if line.len() == 0 {
        Command::Nothing
    } else if line == "/help"@ {
        Command::Help
    } else if line == "/clear"@ {
        Command::Clear
    } else if line == "/connect"@ {
        Command::Connect
    } else if line == "/debug"@ {
        Command::Debug
    } else if line == "/quit"@ {
        Command::Quit
    } else {
        Command::Other
    }
}

/// Reads the command of a line typed by the user.
pub fn parse_command(line: &String) -> (c: Command)
    ensures
        c == command_of(line@),
{
    if line.as_str().is_empty() {
        Command::Nothing
    } else if *line == "/help".to_owned() {
        Command::Help
    } else if *line == "/clear".to_owned() {
        Command::Clear
    } else if *line == "/connect".to_owned() {
        Command::Connect
    } else if *line == "/debug".to_owned() {
        Command::Debug
    } else if *line == "/quit".to_owned() {
        Command::Quit
    } else {
        Command::Other
    }
}

/// What the client does with a message of the server.
#[derive(Debug)]
pub enum Incoming {
    /// Append this line to the messages.
    Show(String),
    /// Nothing.
    Ignore,
    /// Show this text in the notification area.
    Notify(String),
}

/// The line shown for a chat message: `timestamp-sender:message`.
pub open spec fn chat_line(sender: Seq<char>, message: Seq<char>, timestamp: Seq<char>) -> Seq<char> {
    timestamp + "-"@ + sender + ":"@ + message
}

/// What to do with a decoded message of the server (`None`: the text did
/// not decode): show chats, ignore notifications and errors, and report
/// any other kind as unknown.
pub fn handle_incoming_server_msg(decoded: Option<ServerMessage>) -> (r: Incoming)
    ensures
        match decoded {
            Some(m) => match m@ {
                ServerMessageView::Chat { sender, message, timestamp } => r matches Incoming::Show(l)
                    && l@ == chat_line(sender, message, timestamp),
                ServerMessageView::Notification { .. } => r is Ignore,
                ServerMessageView::Error { .. } => r is Ignore,
                _ => r matches Incoming::Notify(t) && t@ == "Received wrong/unknown ServerMessage type."@,
            },
            None => r matches Incoming::Notify(t) && t@ == "Unable to deserialize Server message."@,
        },
{
    match decoded {
        Some(ServerMessage::Chat { sender, message, timestamp }) => {
            let line = timestamp.concat("-").concat(sender.as_str()).concat(":").concat(message.as_str());
            Incoming::Show(line)
        },
        Some(ServerMessage::Notification { .. }) => Incoming::Ignore,
        Some(ServerMessage::Error { .. }) => Incoming::Ignore,
        Some(_) => Incoming::Notify("Received wrong/unknown ServerMessage type.".to_owned()),
        None => Incoming::Notify("Unable to deserialize Server message.".to_owned()),
    }
}

/// Whether the server's answer to the authentication admits the client: a
/// successful `auth_result`.
pub fn auth_accepted(decoded: Option<ServerMessage>) -> (ok: bool)
    ensures
        ok <==> decoded matches Some(ServerMessage::AuthResult { success: true, .. }),
{
    match decoded {
        Some(ServerMessage::AuthResult { success, .. }) => success,
        _ => false,
    }
}

/// The line shown for a message the user sent: `user:message`.
pub fn own_message_line(user: &String, message: &String) -> (l: String)
    ensures
        l@ == user@ + ":"@ + message@,
{
    user.clone().concat(":").concat(message.as_str())
}

} // verus!
