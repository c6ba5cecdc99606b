//! What the broker receives from connections and what it sends back, and how
//! the latter turns into protocol messages.

use vstd::prelude::*;
use tokio::sync::mpsc::UnboundedSender;

use crate::addr::PeerAddr;
use crate::channel::{send_on, SendLog};
use crate::clock::{is_local_timestamp, local_timestamp};
use crate::ws_messages::{ServerMessage, ServerMessageView};

verus! {

/// A client known to the broker.
#[derive(Debug, Clone)]
pub struct BrokerClient {
    /// Client username.
    pub str_id: String,
    /// Address of the connected client.
    pub addr: PeerAddr,
    /// Room the client has joined.
    pub room_name: String,
    /// Channel for sending messages to the client.
    pub broker_to_client: UnboundedSender<BrokerToClientMsg>,
}

/// Events that connections send to the broker.
#[derive(Debug, Clone)]
pub enum BrokerEvent {
    /// A new authenticated client asks to be added to the broker, in the room
    /// named in its `room_name`.
    AddUserToBroker {
        client: BrokerClient,
        /// Timestamp when the message was received.
        timestamp: String,
    },
    /// A client disconnects.
    Disconnect {
        /// Address of the disconnected client.
        addr: PeerAddr,
        /// Timestamp when the message was received.
        timestamp: String,
    },
    /// A client broadcasts a message to its room.
    Broadcast {
        /// Sender address.
        sender_addr: PeerAddr,
        /// Message to broadcast.
        str_message: String,
        /// Timestamp when the message was received.
        timestamp: String,
    },
    /// A client moves to a room, created if it does not exist.
    JoinRoom {
        /// Sender address.
        sender_addr: PeerAddr,
        /// Name of the room to join or create.
        room_name: String,
        /// Timestamp when the message was received.
        timestamp: String,
    },
}

/// The broker's answer to a client command.
#[derive(Debug, Clone, Copy, PartialEq, Eq, Structural)]
pub enum BrokerRsp {
    /// Answer to adding a client to the broker.
    AddedToBroker {
        /// Final status.
        status: bool,
    },
    /// Answer to joining a room.
    JoinRoom {
        /// Final status.
        status: bool,
        /// Whether the room was created (rather than joined).
        created: bool,
    },
}

/// Messages from the broker to one client.
#[derive(Debug, Clone)]
pub enum BrokerToClientMsg {
    /// Answer to a command of this client.
    Response(BrokerRsp),
    /// A chat message from a user of the room.
    ChatMessage {
        /// Sender address.
        sender: PeerAddr,
        /// Sender user name.
        sender_name: String,
        /// The text.
        text: String,
        /// Timestamp when the message was received.
        timestamp: String,
    },
    /// A system notification.
    Notification { text: String, timestamp: String },
    /// Another user left the room.
    UserLogoutNtf { text: String, timestamp: String },
}

/// A broker-to-client message with its texts taken as character sequences.
pub enum BrokerToClientMsgView {
    Response(BrokerRsp),
    ChatMessage { sender: PeerAddr, sender_name: Seq<char>, text: Seq<char>, timestamp: Seq<char> },
    Notification { text: Seq<char>, timestamp: Seq<char> },
    UserLogoutNtf { text: Seq<char>, timestamp: Seq<char> },
}

impl View for BrokerToClientMsg {
    type V = BrokerToClientMsgView;

    open spec fn view(&self) -> BrokerToClientMsgView {
        match self {
            BrokerToClientMsg::Response(r) => BrokerToClientMsgView::Response(*r),
            BrokerToClientMsg::ChatMessage { sender, sender_name, text, timestamp } =>
                BrokerToClientMsgView::ChatMessage {
                    sender: *sender,
                    sender_name: sender_name@,
                    text: text@,
                    timestamp: timestamp@,
                },
            BrokerToClientMsg::Notification { text, timestamp } =>
                BrokerToClientMsgView::Notification { text: text@, timestamp: timestamp@ },
            BrokerToClientMsg::UserLogoutNtf { text, timestamp } =>
                BrokerToClientMsgView::UserLogoutNtf { text: text@, timestamp: timestamp@ },
        }
    }
}

impl BrokerToClientMsg {
    /// A response message.
    pub fn new_response(rsp: BrokerRsp) -> (m: Self)
        ensures
            m@ == BrokerToClientMsgView::Response(rsp),
    {
        BrokerToClientMsg::Response(rsp)
    }

    /// A chat message.
    pub fn new_chat_message(sender: PeerAddr, sender_name: String, text: String, timestamp: String) -> (m: Self)
        ensures
            m == (BrokerToClientMsg::ChatMessage { sender, sender_name, text, timestamp }),
    {
        BrokerToClientMsg::ChatMessage { sender, sender_name, text, timestamp }
    }
}

/// The views of logged sends: each channel with the view of its message.
pub open spec fn log_view(s: Seq<(UnboundedSender<BrokerToClientMsg>, BrokerToClientMsg)>) -> Seq<
    (UnboundedSender<BrokerToClientMsg>, BrokerToClientMsgView),
> {
    s.map_values(|p: (UnboundedSender<BrokerToClientMsg>, BrokerToClientMsg)| (p.0, p.1@))
}

impl BrokerClient {
    /// Sends `rsp` to this client's channel as a `Response` (a closed channel
    /// is ignored); returns the log of that one send.
    pub fn send_response(&self, rsp: BrokerRsp) -> (sent: SendLog<BrokerToClientMsg>)
        ensures
            log_view(sent@) == seq![(self.broker_to_client, BrokerToClientMsgView::Response(rsp))],
    {
        let m = BrokerToClientMsg::new_response(rsp);
        let mut log = SendLog::new();
        let _ = send_on(&self.broker_to_client, m, &mut log);
        assert(log_view(log@) =~= seq![(self.broker_to_client, BrokerToClientMsgView::Response(rsp))]);
        log
    }

    /// Sends to this client's channel the chat message `msg` of
    /// `sender_client`, with the sender's address and name (a closed channel
    /// is ignored); returns the log of that one send.
    pub fn send_message(&self, sender_client: &BrokerClient, msg: &str, timestamp: &str) -> (sent: SendLog<
        BrokerToClientMsg,
    >)
        ensures
            log_view(sent@) == seq![
                (self.broker_to_client, BrokerToClientMsgView::ChatMessage {
                    sender: sender_client.addr,
                    sender_name: sender_client.str_id@,
                    text: msg@,
                    timestamp: timestamp@,
                }),
            ],
    {
        let m = BrokerToClientMsg::new_chat_message(
            sender_client.addr,
            sender_client.str_id.clone(),
            msg.to_owned(),
            timestamp.to_owned(),
        );
        let ghost v = m@;
        let mut log = SendLog::new();
        let _ = send_on(&self.broker_to_client, m, &mut log);
        assert(log_view(log@) =~= seq![(self.broker_to_client, v)]);
        log
    }

    /// Sends the notification `text` to this client's channel (a closed
    /// channel is ignored); returns the log of that one send.
    pub fn send_notification(&self, text: &str, timestamp: &str) -> (sent: SendLog<BrokerToClientMsg>)
        ensures
            log_view(sent@) == seq![
                (self.broker_to_client, BrokerToClientMsgView::Notification { text: text@, timestamp: timestamp@ }),
            ],
    {
        let m = BrokerToClientMsg::Notification { text: text.to_owned(), timestamp: timestamp.to_owned() };
        let ghost v = m@;
        let mut log = SendLog::new();
        let _ = send_on(&self.broker_to_client, m, &mut log);
        assert(log_view(log@) =~= seq![(self.broker_to_client, v)]);
        log
    }
}

/// The protocol message that tells a client about `m`, stamped with `ts`
/// where `m` carries no time of its own.
pub open spec fn server_message_for(m: BrokerToClientMsgView, ts: Seq<char>) -> ServerMessageView {
    match m {
        BrokerToClientMsgView::Response(BrokerRsp::AddedToBroker { status }) => if status {
            ServerMessageView::Notification { value: "Connected"@, timestamp: ts }
        } else {
            ServerMessageView::Error { value: "Connection failed"@ }
        },
        BrokerToClientMsgView::Response(BrokerRsp::JoinRoom { status, created }) => if status {
            ServerMessageView::Notification {
                value: if created { "Room created"@ } else { "Room joined"@ },
                timestamp: ts,
            }
        } else {
            ServerMessageView::Error { value: "Join room failed"@ }
        },
        BrokerToClientMsgView::ChatMessage { sender, sender_name, text, timestamp } =>
            ServerMessageView::Chat { sender: sender_name, message: text, timestamp },
        BrokerToClientMsgView::Notification { text, timestamp } =>
            ServerMessageView::Notification { value: text, timestamp },
        BrokerToClientMsgView::UserLogoutNtf { text, timestamp } =>
            ServerMessageView::UserLogoutNtf { value: text, timestamp },
    }
}

/// The broker message that a protocol message stands for, where there is
/// one: chats, notifications and errors.
pub open spec fn broker_message_for(m: ServerMessageView) -> Option<BrokerToClientMsgView> {
    match m {
        ServerMessageView::Chat { sender, message, timestamp } => Some(
            BrokerToClientMsgView::ChatMessage {
                sender: PeerAddr::V4 { ip: 0, port: 0 },
                sender_name: sender,
                text: message,
                timestamp,
            },
        ),
        ServerMessageView::Notification { value, timestamp } => Some(
            BrokerToClientMsgView::Notification { text: value, timestamp },
        ),
        ServerMessageView::Error { value } => Some(
            BrokerToClientMsgView::Notification { text: "Error: "@ + value, timestamp: Seq::empty() },
        ),
        _ => None,
    }
}

/// The protocol message for `msg`, stamped with `timestamp` where `msg`
/// carries no time of its own.
pub fn to_server_message(msg: BrokerToClientMsg, timestamp: String) -> (r: ServerMessage)
    ensures
        r@ == server_message_for(msg@, timestamp@),
{
    match msg {
        BrokerToClientMsg::Response(BrokerRsp::AddedToBroker { status }) => {
            if status {
                ServerMessage::Notification { value: "Connected".to_owned(), timestamp }
            } else {
                ServerMessage::Error { value: "Connection failed".to_owned() }
            }
        },
        BrokerToClientMsg::Response(BrokerRsp::JoinRoom { status, created }) => {
            if status {
                let value = if created {
                    "Room created".to_owned()
                } else {
                    "Room joined".to_owned()
                };
                ServerMessage::Notification { value, timestamp }
            } else {
                ServerMessage::Error { value: "Join room failed".to_owned() }
            }
        },
        BrokerToClientMsg::ChatMessage { sender_name, text, timestamp, .. } => ServerMessage::Chat {
            sender: sender_name,
            message: text,
            timestamp,
        },
        BrokerToClientMsg::Notification { text, timestamp } => ServerMessage::Notification {
            value: text,
            timestamp,
        },
        BrokerToClientMsg::UserLogoutNtf { text, timestamp } => ServerMessage::UserLogoutNtf {
            value: text,
            timestamp,
        },
    }
}

/// The broker message for a protocol message, or the reason there is none.
pub fn to_broker_message(msg: ServerMessage) -> (r: Result<BrokerToClientMsg, String>)
    ensures
        match r {
            Ok(b) => broker_message_for(msg@) == Some(b@),
            Err(e) => broker_message_for(msg@) is None
                && e@ == "Unsupported ServerMessage variant for broker"@,
        },
{
    match msg {
        ServerMessage::Chat { sender, message, timestamp } => Ok(BrokerToClientMsg::ChatMessage {
            sender: PeerAddr::unspecified(),
            sender_name: sender,
            text: message,
            timestamp,
        }),
        ServerMessage::Notification { value, timestamp } => Ok(BrokerToClientMsg::Notification {
            text: value,
            timestamp,
        }),
        ServerMessage::Error { value } => {
            let text = "Error: ".to_owned().concat(value.as_str());
            Ok(BrokerToClientMsg::Notification { text, timestamp: String::new() })
        },
        _ => Err("Unsupported ServerMessage variant for broker".to_owned()),
    }
}

impl TryFrom<BrokerToClientMsg> for ServerMessage {
    type Error = String;

    /// The protocol message for `msg`, stamped with the current local time
    /// (`%d/%m/%Y %H:%M:%S`) where `msg` carries no time of its own. It never
    /// fails.
    fn try_from(msg: BrokerToClientMsg) -> (r: Result<ServerMessage, String>)
        ensures
            r matches Ok(s) && exists|ts: Seq<char>| #[trigger] server_message_for(msg@, ts) == s@
                && is_local_timestamp(ts),
    {
        let ghost m = msg@;
        let timestamp = local_timestamp().text();
        let ghost ts = timestamp@;
        let s = to_server_message(msg, timestamp);
        assert(server_message_for(m, ts) == s@);
        Ok(s)
    }
}

impl vstd::std_specs::convert::TryFromSpecImpl<BrokerToClientMsg> for ServerMessage {
    open spec fn obeys_try_from_spec() -> bool {
        false
    }

    open spec fn try_from_spec(v: BrokerToClientMsg) -> Result<ServerMessage, String> {
        Err(arbitrary())
    }
}

impl TryFrom<ServerMessage> for BrokerToClientMsg {
    type Error = String;

    /// The broker message for `msg`: chats, notifications and errors have
    /// one, the other messages are refused.
    fn try_from(msg: ServerMessage) -> (r: Result<BrokerToClientMsg, String>)
        ensures
            match r {
                Ok(b) => broker_message_for(msg@) == Some(b@),
                Err(e) => broker_message_for(msg@) is None
                    && e@ == "Unsupported ServerMessage variant for broker"@,
            },
    {
        to_broker_message(msg)
    }
}

impl vstd::std_specs::convert::TryFromSpecImpl<ServerMessage> for BrokerToClientMsg {
    open spec fn obeys_try_from_spec() -> bool {
        false
    }

    open spec fn try_from_spec(v: ServerMessage) -> Result<BrokerToClientMsg, String> {
        Err(arbitrary())
    }
}

/// A notification sent to a client and read back as a broker message is the
/// same notification; a chat message comes back the same but for its
/// sender's address, which the protocol does not carry.
pub proof fn law_conversion_round_trip(m: BrokerToClientMsgView, ts: Seq<char>)
    ensures
        m is Notification ==> broker_message_for(server_message_for(m, ts)) == Some(m),
        m matches BrokerToClientMsgView::ChatMessage { sender_name, text, timestamp, .. }
            ==> broker_message_for(server_message_for(m, ts)) == Some(
            BrokerToClientMsgView::ChatMessage {
                sender: PeerAddr::V4 { ip: 0, port: 0 },
                sender_name,
                text,
                timestamp,
            },
        ),
{
}

} // verus!
