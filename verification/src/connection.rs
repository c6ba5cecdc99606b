//! The decisions of a client connection: the handshake that admits it, and
//! how each frame it reads becomes an event for the broker.

use vstd::prelude::*;
use tokio::sync::mpsc::UnboundedSender;

use crate::addr::PeerAddr;
use crate::broker_model::BrokerEventView;
use crate::broker_msgs::{BrokerClient, BrokerEvent, BrokerToClientMsg};
use crate::clock::{is_local_timestamp, local_timestamp, ClockReading};
use crate::users::{login, AuthResult, UserStore};
use crate::ws_messages::{AuthenticateUser, ClientMessage, ClientMessageView, ServerMessage, ServerMessageView};

verus! {

/// The view of a decoded frame (`None`: not a valid client message).
pub open spec fn decoded_view(m: Option<ClientMessage>) -> Option<ClientMessageView> {
    match m {
        Some(c) => Some(c@),
        None => None,
    }
}

/// The view of an optional event.
pub open spec fn event_view(e: Option<BrokerEvent>) -> Option<BrokerEventView> {
    match e {
        Some(x) => Some(x@),
        None => None,
    }
}

/// The answer to a first message that is not an authentication.
pub open spec fn must_authenticate_first() -> ServerMessageView {
    ServerMessageView::AuthResult { success: false, msg: Some("First message must be authenticate"@) }
}

/// The answer to a login that was denied.
pub open spec fn authentication_failed() -> ServerMessageView {
    ServerMessageView::AuthResult { success: false, msg: Some("Authentication failed"@) }
}

/// The answer to a login that was accepted.
pub open spec fn authentication_succeeded() -> ServerMessageView {
    ServerMessageView::AuthResult { success: true, msg: None }
}

/// The first message of a connection must be an authentication: returns its
/// contents, or the answer for the client otherwise (another message, or a
/// frame that is not a valid client message, `None`).
pub fn parse_authenticate(decoded: Option<ClientMessage>) -> (r: Result<AuthenticateUser, ServerMessage>)
    ensures
        match decoded {
            Some(ClientMessage::Authenticate(a)) => r == Ok::<AuthenticateUser, ServerMessage>(a),
            _ => r matches Err(m) && m@ == must_authenticate_first(),
        },
{
    match decoded {
        Some(ClientMessage::Authenticate(auth)) => Ok(auth),
        _ => Err(
            ServerMessage::AuthResult {
                success: false,
                msg: Some("First message must be authenticate".to_owned()),
            },
        ),
    }
}

/// The broker event for a message of an admitted client at `addr`:
/// a `send` broadcasts its text, a `join` asks for the room, a `logout`
/// disconnects; an authentication, or a frame that is not a valid client
/// message, gives none.
pub open spec fn client_event(m: Option<ClientMessageView>, addr: PeerAddr, ts: Seq<char>) -> Option<
    BrokerEventView,
> {
    match m {
        Some(ClientMessageView::Broadcast { message, .. }) => Some(
            BrokerEventView::Broadcast { sender: addr, text: message, timestamp: ts },
        ),
        Some(ClientMessageView::JoinRoom { room_name, .. }) => Some(
            BrokerEventView::JoinRoom { sender: addr, room: room_name, timestamp: ts },
        ),
        Some(ClientMessageView::Logout { .. }) => Some(
            BrokerEventView::Disconnect { addr, timestamp: ts },
        ),
        _ => None,
    }
}

/// The broker event for a decoded message of the client at `client_addr`,
/// received at `timestamp` (see `client_event`).
pub fn parse_broadcast_message(decoded: Option<ClientMessage>, client_addr: PeerAddr, timestamp: String) -> (r:
    Option<BrokerEvent>)
    ensures
        event_view(r) == client_event(decoded_view(decoded), client_addr, timestamp@),
{
    match decoded {
        Some(ClientMessage::Broadcast(send_msg)) => Some(
            BrokerEvent::Broadcast { sender_addr: client_addr, str_message: send_msg.message, timestamp },
        ),
        Some(ClientMessage::JoinRoom(room)) => Some(
            BrokerEvent::JoinRoom { sender_addr: client_addr, room_name: room.room_name, timestamp },
        ),
        Some(ClientMessage::Logout(_)) => Some(BrokerEvent::Disconnect { addr: client_addr, timestamp }),
        Some(ClientMessage::Authenticate(_)) => None,
        None => None,
    }
}

/// What the reading half of a connection got from the socket.
#[derive(Debug)]
pub enum WsInput {
    /// A text frame, decoded (`None`: not a valid client message).
    Text(Option<ClientMessage>),
    /// A close frame, or a frame that is not text.
    NonText,
    /// A read error.
    ReadError,
    /// The end of the stream.
    End,
}

/// The view of a socket input.
pub enum WsInputView {
    Text(Option<ClientMessageView>),
    NonText,
    ReadError,
    End,
}

impl View for WsInput {
    type V = WsInputView;

    open spec fn view(&self) -> WsInputView {
        match self {
            WsInput::Text(m) => WsInputView::Text(decoded_view(*m)),
            WsInput::NonText => WsInputView::NonText,
            WsInput::ReadError => WsInputView::ReadError,
            WsInput::End => WsInputView::End,
        }
    }
}

/// What the reading half does with one input: the event to send to the
/// broker, if any, whether it stops reading, and the reading of the clock
/// taken when the input was handled (when the time was read here).
#[derive(Debug)]
pub struct ReaderAction {
    pub event: Option<BrokerEvent>,
    pub stop: bool,
    pub received_at: Option<ClockReading>,
}

/// The event and the decision to stop for one input: a text frame gives the
/// event of its message and stops after a disconnect; anything else
/// disconnects the client and stops.
pub open spec fn reader_spec(input: WsInputView, addr: PeerAddr, ts: Seq<char>) -> (Option<BrokerEventView>, bool) {
    match input {
        WsInputView::Text(m) => {
            let e = client_event(m, addr, ts);
            (e, e matches Some(BrokerEventView::Disconnect { .. }))
        },
        _ => (Some(BrokerEventView::Disconnect { addr, timestamp: ts }), true),
    }
}

/// One step of the reading half of the connection of `client_addr`, for an
/// input received at `timestamp`.
pub fn reader_step(input: WsInput, client_addr: PeerAddr, timestamp: String) -> (r: ReaderAction)
    ensures
        (event_view(r.event), r.stop) == reader_spec(input@, client_addr, timestamp@),
        r.received_at is None,
{
    match input {
        WsInput::Text(decoded) => {
            let event = parse_broadcast_message(decoded, client_addr, timestamp);
            let stop = match &event {
                Some(BrokerEvent::Disconnect { .. }) => true,
                _ => false,
            };
            ReaderAction { event, stop, received_at: None }
        },
        _ => ReaderAction {
            event: Some(BrokerEvent::Disconnect { addr: client_addr, timestamp }),
            stop: true,
            received_at: None,
        },
    }
}

/// One step of the reading half of the connection of `client_addr`, for an
/// input received now: the clock is read, the event is stamped with that
/// reading, and the reading is returned with it.
pub fn reader_step_now(input: WsInput, client_addr: PeerAddr) -> (r: ReaderAction)
    ensures
        r.received_at matches Some(t) && reader_spec(input@, client_addr, t@) == (event_view(r.event), r.stop)
            && is_local_timestamp(t@),
{
    let reading = local_timestamp();
    let timestamp = reading.text();
    let ReaderAction { event, stop, .. } = reader_step(input, client_addr, timestamp);
    ReaderAction { event, stop, received_at: Some(reading) }
}

/// The time an event is stamped with.
pub open spec fn event_time(e: BrokerEventView) -> Seq<char> {
    match e {
        BrokerEventView::AddUser { timestamp, .. } => timestamp,
        BrokerEventView::Disconnect { timestamp, .. } => timestamp,
        BrokerEventView::Broadcast { timestamp, .. } => timestamp,
        BrokerEventView::JoinRoom { timestamp, .. } => timestamp,
    }
}

/// The event that `reader_step_now` sends is stamped with the reading of the
/// clock taken for that input, which it returns beside the event.
pub proof fn law_reader_event_stamped_when_received(input: WsInputView, addr: PeerAddr, r: ReaderAction)
    requires
        r.received_at matches Some(t) && reader_spec(input, addr, t@) == (event_view(r.event), r.stop),
    ensures
        r.event matches Some(e) ==> event_time(e@) == r.received_at->0@,
{
}

/// The events that the reading half sends for the inputs `s` (each with the
/// time it was received), up to and including the input that stops it.
pub open spec fn reader_trace(s: Seq<(WsInputView, Seq<char>)>, addr: PeerAddr) -> Seq<BrokerEventView>
    decreases s.len(),
{
    if s.len() == 0 {
        Seq::empty()
    } else {
        let (e, stop) = reader_spec(s[0].0, addr, s[0].1);
        let here = match e {
            Some(x) => seq![x],
            None => Seq::empty(),
        };
        if stop {
            here
        } else {
            here + reader_trace(s.drop_first(), addr)
        }
    }
}

/// Whatever the client sends, the reading half of a connection tells the
/// broker of at most one disconnect, as the last event it sends; and a
/// connection whose stream ends (or fails, or is closed) does send that
/// disconnect, of its own address.
pub proof fn law_reader_ends_with_one_disconnect(s: Seq<(WsInputView, Seq<char>)>, addr: PeerAddr)
    ensures
        ({
            let t = reader_trace(s, addr);
            &&& forall|i: int| 0 <= i < t.len() - 1 ==> !(t[i] is Disconnect)
            &&& (s.len() > 0 && s.last().0 is End) ==> (t.len() > 0 && (t.last() matches BrokerEventView::Disconnect {
                addr: a,
                ..
            } && a == addr))
        }),
    decreases s.len(),
{
    if s.len() > 0 {
        let t = reader_trace(s, addr);
        let (e, stop) = reader_spec(s[0].0, addr, s[0].1);
        let here = match e {
            Some(x) => seq![x],
            None => Seq::<BrokerEventView>::empty(),
        };
        if !stop {
            let rest = s.drop_first();
            law_reader_ends_with_one_disconnect(rest, addr);
            let tr = reader_trace(rest, addr);
            assert(t == here + tr);
            assert(here.len() == 0 || !(here[0] is Disconnect));
            assert forall|i: int| 0 <= i < t.len() - 1 implies !(t[i] is Disconnect) by {
                if i < here.len() {
                    assert(t[i] == here[i]);
                } else {
                    assert(t[i] == tr[i - here.len()]);
                }
            }
            if s.last().0 is End {
                assert(s.len() > 1);
                assert(rest.last() == s.last());
            }
        } else {
            match s[0].0 {
                WsInputView::Text(m) => {
                    assert(e is Some);
                },
                _ => {},
            }
        }
    }
}

/// Whether `e` is an event a connected client can cause, sent on behalf of
/// the client at `addr`: a broadcast, a room change or a disconnect, carrying
/// that address.
pub open spec fn sent_for(e: BrokerEventView, addr: PeerAddr) -> bool {
    match e {
        BrokerEventView::Broadcast { sender, .. } => sender == addr,
        BrokerEventView::JoinRoom { sender, .. } => sender == addr,
        BrokerEventView::Disconnect { addr: a, .. } => a == addr,
        BrokerEventView::AddUser { .. } => false,
    }
}

/// Whatever the client sends, every event the reading half of the connection
/// of `addr` sends to the broker carries `addr`, and none of them adds a
/// user.
pub proof fn law_reader_events_carry_address(s: Seq<(WsInputView, Seq<char>)>, addr: PeerAddr)
    ensures
        forall|i: int| 0 <= i < reader_trace(s, addr).len() ==> sent_for(#[trigger] reader_trace(s, addr)[i], addr),
    decreases s.len(),
{
    if s.len() > 0 {
        let t = reader_trace(s, addr);
        let (e, stop) = reader_spec(s[0].0, addr, s[0].1);
        let here = match e {
            Some(x) => seq![x],
            None => Seq::<BrokerEventView>::empty(),
        };
        assert(here.len() == 1 ==> sent_for(here[0], addr));
        if stop {
            assert(t == here);
        } else {
            let rest = s.drop_first();
            law_reader_events_carry_address(rest, addr);
            let tr = reader_trace(rest, addr);
            assert(t == here + tr);
            assert forall|i: int| 0 <= i < t.len() implies sent_for(#[trigger] t[i], addr) by {
                if i < here.len() {
                    assert(t[i] == here[i]);
                } else {
                    assert(t[i] == tr[i - here.len()]);
                }
            }
        }
    }
}

/// What to do with the first frame of a connection.
#[derive(Debug)]
pub enum FirstFrame {
    /// A text frame, decoded (`None`: not a valid client message).
    Text(Option<ClientMessage>),
    /// Anything else: another frame, an error, or the end of the stream.
    NotText,
}

/// The outcome of the first frame.
#[derive(Debug)]
pub enum Handshake {
    /// Close the connection without an answer.
    Close,
    /// Answer with this message and close.
    Reject(ServerMessage),
    /// Log this user in.
    Login(AuthenticateUser),
}

/// The first frame of a connection: anything but text closes it, a text
/// that is not an authentication is answered and closes it, and an
/// authentication goes on to the login.
pub fn on_first_frame(frame: FirstFrame) -> (r: Handshake)
    ensures
        match frame {
            FirstFrame::NotText => r is Close,
            FirstFrame::Text(Some(ClientMessage::Authenticate(a))) => r == Handshake::Login(a),
            FirstFrame::Text(_) => r matches Handshake::Reject(m) && m@ == must_authenticate_first(),
        },
{
    match frame {
        FirstFrame::NotText => Handshake::Close,
        FirstFrame::Text(decoded) => match parse_authenticate(decoded) {
            Ok(auth) => Handshake::Login(auth),
            Err(response) => Handshake::Reject(response),
        },
    }
}

/// Logs in the user of `auth` (registering it on its first login) and,
/// unless denied, returns the event that adds it to the broker in the room
/// it asked for, with its address and channel, and the successful answer
/// for the client; a denied login returns the answer for the client.
pub fn admit_client(
    store: &mut UserStore,
    auth: AuthenticateUser,
    addr: PeerAddr,
    channel: UnboundedSender<BrokerToClientMsg>,
    timestamp: String,
) -> (r: Result<(BrokerEvent, ServerMessage), ServerMessage>)
    requires
        old(store).wf(),
    ensures
        final(store).wf(),
        exists|outcome: AuthResult| #[trigger]
            login(old(store)@, auth.username@, auth.password@, outcome, final(store)@) && match r {
                Ok((e, reply)) => outcome != AuthResult::Denied && e@ == (BrokerEventView::AddUser {
                    addr,
                    str_id: auth.username@,
                    room: auth.room_name@,
                    channel,
                    timestamp: timestamp@,
                }) && reply@ == authentication_succeeded(),
                Err(m) => outcome == AuthResult::Denied && m@ == authentication_failed(),
            },
{
    let outcome = store.authenticate(auth.username.as_str(), auth.password.as_str());
    match outcome {
        AuthResult::Denied => Err(
            ServerMessage::AuthResult { success: false, msg: Some("Authentication failed".to_owned()) },
        ),
        _ => {
            let client = BrokerClient {
                str_id: auth.username,
                addr,
                room_name: auth.room_name,
                broker_to_client: channel,
            };
            Ok((BrokerEvent::AddUserToBroker { client, timestamp }, ServerMessage::AuthResult { success: true, msg: None }))
        },
    }
}

/// `admit_client` for a login happening now: the event that adds the client
/// is stamped with the local time.
pub fn admit_client_now(
    store: &mut UserStore,
    auth: AuthenticateUser,
    addr: PeerAddr,
    channel: UnboundedSender<BrokerToClientMsg>,
) -> (r: Result<(BrokerEvent, ServerMessage), ServerMessage>)
    requires
        old(store).wf(),
    ensures
        final(store).wf(),
        exists|outcome: AuthResult| #[trigger]
            login(old(store)@, auth.username@, auth.password@, outcome, final(store)@) && match r {
                Ok((e, reply)) => outcome != AuthResult::Denied && (e@ matches BrokerEventView::AddUser {
                    addr: a,
                    str_id,
                    room,
                    channel: ch,
                    timestamp: t,
                } && a == addr && str_id == auth.username@ && room == auth.room_name@ && ch == channel
                    && is_local_timestamp(t))
                    && reply@ == authentication_succeeded(),
                Err(m) => outcome == AuthResult::Denied && m@ == authentication_failed(),
            },
{
    let timestamp = local_timestamp().text();
    admit_client(store, auth, addr, channel, timestamp)
}

} // verus!
