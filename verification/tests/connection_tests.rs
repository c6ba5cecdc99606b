use chatter::addr::PeerAddr;
use chatter::broker_msgs::{to_broker_message, to_server_message, BrokerEvent, BrokerRsp, BrokerToClientMsg};
use chatter::connection::{
    admit_client, on_first_frame, parse_authenticate, parse_broadcast_message, reader_step, reader_step_now,
    FirstFrame, Handshake, WsInput,
};
use chatter::users::UserStore;
use chatter::ws_messages::{AuthenticateUser, ClientMessage, Logout, Room, SendMessage, ServerMessage};
use tokio::sync::mpsc;

fn ts() -> String {
    "17/06/2026 18:30:00".to_string()
}

fn authenticate_msg(username: &str, password: &str, room: &str) -> ClientMessage {
    ClientMessage::Authenticate(AuthenticateUser {
        username: username.to_string(),
        password: password.to_string(),
        room_name: room.to_string(),
    })
}

fn send_msg(username: &str, message: &str) -> ClientMessage {
    ClientMessage::Broadcast(SendMessage {
        username: username.to_string(),
        message: message.to_string(),
    })
}

fn logout_msg(message: &str) -> ClientMessage {
    ClientMessage::Logout(Logout {
        message: message.to_string(),
    })
}

/// Feeds the inputs to the reading half until it stops; the stream ends
/// after the last input.
fn run_reader(inputs: Vec<WsInput>, addr: PeerAddr) -> Vec<BrokerEvent> {
    let mut events = Vec::new();
    for input in inputs.into_iter().chain(std::iter::once(WsInput::End)) {
        let action = reader_step(input, addr, ts());
        if let Some(e) = action.event {
            events.push(e);
        }
        if action.stop {
            break;
        }
    }
    events
}

fn test_addr() -> PeerAddr {
    PeerAddr::v4(127, 0, 0, 1, 9000)
}

// `{"type":"authenticate","username":"alice","password":"p","room_name":"r"}`
#[test]
fn parse_authenticate_valid() {
    let result = parse_authenticate(Some(authenticate_msg("alice", "p", "r")));
    assert!(result.is_ok());
    let auth = result.unwrap();
    assert_eq!(auth.username, "alice");
    assert_eq!(auth.password, "p");
    assert_eq!(auth.room_name, "r");
}

// `{"type":"send","username":"alice","message":"hello"}`
#[test]
fn parse_authenticate_rejects_send_first() {
    let result = parse_authenticate(Some(send_msg("alice", "hello")));
    assert!(result.is_err());
    let err = result.unwrap_err();
    assert!(matches!(
        err,
        ServerMessage::AuthResult { success: false, .. }
    ));
    match err {
        ServerMessage::AuthResult { msg, .. } => {
            assert_eq!(msg.unwrap(), "First message must be authenticate")
        }
        _ => unreachable!(),
    }
}

// `not json` does not decode.
#[test]
fn parse_authenticate_rejects_invalid_json() {
    let result = parse_authenticate(None);
    assert!(result.is_err());
}

#[test]
fn parse_client_message_send_produces_broadcast() {
    let addr = PeerAddr::v4(127, 0, 0, 1, 5000);
    let event = parse_broadcast_message(Some(send_msg("alice", "hello")), addr, ts());
    assert!(event.is_some());
    match event.unwrap() {
        BrokerEvent::Broadcast {
            sender_addr,
            str_message,
            ..
        } => {
            assert_eq!(sender_addr, addr);
            assert_eq!(str_message, "hello");
        }
        other => panic!("expected Broadcast, got {other:?}"),
    }
}

#[test]
fn parse_client_message_logout_produces_disconnect() {
    let addr = PeerAddr::v4(127, 0, 0, 1, 5000);
    let event = parse_broadcast_message(Some(logout_msg("bye")), addr, ts());
    assert!(event.is_some());
    match event.unwrap() {
        BrokerEvent::Disconnect { addr: a, .. } => {
            assert_eq!(a, addr);
        }
        other => panic!("expected Disconnect, got {other:?}"),
    }
}

#[test]
fn parse_client_message_unexpected_authenticate_returns_none() {
    let addr = PeerAddr::v4(127, 0, 0, 1, 5000);
    let event = parse_broadcast_message(Some(authenticate_msg("a", "p", "r")), addr, ts());
    assert!(event.is_none());
}

#[test]
fn parse_client_message_invalid_json_returns_none() {
    let addr = PeerAddr::v4(127, 0, 0, 1, 5000);
    let event = parse_broadcast_message(None, addr, ts());
    assert!(event.is_none());
}

#[test]
fn parse_client_message_join_produces_join_room() {
    let addr = PeerAddr::v4(127, 0, 0, 1, 5000);
    let join = ClientMessage::JoinRoom(Room {
        username: "alice".to_string(),
        room_name: "lounge".to_string(),
    });
    match parse_broadcast_message(Some(join), addr, ts()) {
        Some(BrokerEvent::JoinRoom {
            sender_addr,
            room_name,
            timestamp,
        }) => {
            assert_eq!(sender_addr, addr);
            assert_eq!(room_name, "lounge");
            assert_eq!(timestamp, ts());
        }
        other => panic!("expected JoinRoom, got {other:?}"),
    }
}

#[test]
fn ws_half_reader_sends_broadcast_event() {
    let addr = test_addr();
    let events = run_reader(vec![WsInput::Text(Some(send_msg("alice", "hello")))], addr);
    match &events[0] {
        BrokerEvent::Broadcast {
            sender_addr,
            str_message,
            ..
        } => {
            assert_eq!(*sender_addr, addr);
            assert_eq!(str_message, "hello");
        }
        other => panic!("expected Broadcast, got {other:?}"),
    }
}

#[test]
fn ws_half_reader_sends_disconnect_on_logout() {
    let addr = test_addr();
    let events = run_reader(vec![WsInput::Text(Some(logout_msg("bye")))], addr);
    assert!(matches!(events[0], BrokerEvent::Disconnect { addr: a, .. } if a == addr));
    assert_eq!(events.len(), 1);
}

#[test]
fn ws_half_reader_sends_disconnect_on_close() {
    let addr = test_addr();
    let events = run_reader(vec![WsInput::NonText], addr);
    assert!(matches!(events[0], BrokerEvent::Disconnect { addr: a, .. } if a == addr));
}

#[test]
fn ws_half_reader_sends_disconnect_on_error() {
    let addr = test_addr();
    let events = run_reader(vec![WsInput::ReadError], addr);
    assert!(matches!(events[0], BrokerEvent::Disconnect { addr: a, .. } if a == addr));
}

#[test]
fn ws_half_reader_ignores_unexpected_authenticate() {
    let addr = test_addr();
    let events = run_reader(vec![WsInput::Text(Some(authenticate_msg("a", "p", "r")))], addr);
    // The authenticate message is ignored, but stream ending triggers disconnect.
    assert!(matches!(events[0], BrokerEvent::Disconnect { addr: a, .. } if a == addr));
}

#[test]
fn ws_half_reader_handles_multiple_messages_until_disconnect() {
    let addr = test_addr();
    let events = run_reader(
        vec![
            WsInput::Text(Some(send_msg("a", "first"))),
            WsInput::Text(Some(send_msg("a", "second"))),
            WsInput::Text(Some(logout_msg("bye"))),
        ],
        addr,
    );
    let BrokerEvent::Broadcast { str_message, .. } = &events[0] else {
        panic!("expected Broadcast");
    };
    assert_eq!(str_message, "first");
    let BrokerEvent::Broadcast { str_message, .. } = &events[1] else {
        panic!("expected Broadcast");
    };
    assert_eq!(str_message, "second");
    let BrokerEvent::Disconnect { .. } = &events[2] else {
        panic!("expected Disconnect");
    };
    assert_eq!(events.len(), 3);
}

#[test]
fn ws_half_reader_stops_after_close_and_ignores_the_rest() {
    let addr = test_addr();
    let events = run_reader(
        vec![WsInput::NonText, WsInput::Text(Some(send_msg("a", "late")))],
        addr,
    );
    assert_eq!(events.len(), 1);
    assert!(matches!(events[0], BrokerEvent::Disconnect { .. }));
}

#[test]
fn ws_half_writer_integration_chat_message() {
    let msg = BrokerToClientMsg::ChatMessage {
        sender: test_addr(),
        sender_name: "alice".to_string(),
        text: "hello!".to_string(),
        timestamp: "17/06/2026 18:30:00".to_string(),
    };
    match to_server_message(msg, "other time".to_string()) {
        ServerMessage::Chat {
            sender,
            message,
            timestamp,
        } => {
            assert_eq!(sender, "alice");
            assert_eq!(message, "hello!");
            assert_eq!(timestamp, "17/06/2026 18:30:00");
        }
        other => panic!("expected Chat message, got {other:?}"),
    }
}

#[test]
fn ws_half_writer_integration_user_left_notification() {
    let msg = BrokerToClientMsg::Notification {
        text: "alice has left the room".to_string(),
        timestamp: "17/06/2026 18:30:00".to_string(),
    };
    match to_server_message(msg, "other time".to_string()) {
        ServerMessage::Notification { value, timestamp } => {
            assert_eq!(value, "alice has left the room");
            assert_eq!(timestamp, "17/06/2026 18:30:00");
        }
        other => panic!("expected Notification, got {other:?}"),
    }
}

#[test]
fn response_is_stamped_with_given_time() {
    let msg = BrokerToClientMsg::Response(BrokerRsp::AddedToBroker { status: true });
    match to_server_message(msg, ts()) {
        ServerMessage::Notification { value, timestamp } => {
            assert_eq!(value, "Connected");
            assert_eq!(timestamp, ts());
        }
        other => panic!("expected Notification, got {other:?}"),
    }
}

#[test]
fn server_error_becomes_error_notification() {
    let msg = ServerMessage::Error {
        value: "boom".to_string(),
    };
    match to_broker_message(msg) {
        Ok(BrokerToClientMsg::Notification { text, timestamp }) => {
            assert_eq!(text, "Error: boom");
            assert_eq!(timestamp, "");
        }
        other => panic!("expected Notification, got {other:?}"),
    }
}

#[test]
fn unsupported_server_message_is_refused() {
    let msg = ServerMessage::AuthResult {
        success: true,
        msg: None,
    };
    match BrokerToClientMsg::try_from(msg) {
        Err(e) => assert_eq!(e, "Unsupported ServerMessage variant for broker"),
        Ok(other) => panic!("expected an error, got {other:?}"),
    }
}

#[test]
fn chat_round_trip_loses_only_the_sender_address() {
    let msg = BrokerToClientMsg::ChatMessage {
        sender: test_addr(),
        sender_name: "alice".to_string(),
        text: "hi".to_string(),
        timestamp: ts(),
    };
    let back = to_broker_message(to_server_message(msg, ts())).unwrap();
    match back {
        BrokerToClientMsg::ChatMessage {
            sender,
            sender_name,
            text,
            timestamp,
        } => {
            assert_eq!(sender, PeerAddr::unspecified());
            assert_eq!(sender_name, "alice");
            assert_eq!(text, "hi");
            assert_eq!(timestamp, ts());
        }
        other => panic!("expected ChatMessage, got {other:?}"),
    }
}

#[test]
fn first_frame_not_text_closes() {
    assert!(matches!(on_first_frame(FirstFrame::NotText), Handshake::Close));
}

#[test]
fn first_frame_authentication_goes_to_login() {
    match on_first_frame(FirstFrame::Text(Some(authenticate_msg("alice", "p", "r")))) {
        Handshake::Login(a) => assert_eq!(a.username, "alice"),
        other => panic!("expected Login, got {other:?}"),
    }
    assert!(matches!(
        on_first_frame(FirstFrame::Text(None)),
        Handshake::Reject(ServerMessage::AuthResult { success: false, .. })
    ));
}

#[test]
fn admit_client_adds_registered_user_and_rejects_wrong_password() {
    let mut store = UserStore::new();
    let addr = test_addr();
    let auth = AuthenticateUser {
        username: "alice".to_string(),
        password: "pw".to_string(),
        room_name: "games".to_string(),
    };
    let (tx, _rx) = mpsc::unbounded_channel();
    match admit_client(&mut store, auth.clone(), addr, tx, ts()) {
        Ok((BrokerEvent::AddUserToBroker { client, timestamp }, reply)) => {
            assert!(matches!(reply, ServerMessage::AuthResult { success: true, msg: None }));
            assert_eq!(client.str_id, "alice");
            assert_eq!(client.room_name, "games");
            assert_eq!(client.addr, addr);
            assert_eq!(timestamp, ts());
        }
        other => panic!("expected AddUserToBroker, got {other:?}"),
    }
    let wrong = AuthenticateUser {
        password: "nope".to_string(),
        ..auth
    };
    let (tx, _rx) = mpsc::unbounded_channel();
    match admit_client(&mut store, wrong, addr, tx, ts()) {
        Err(ServerMessage::AuthResult { success, msg }) => {
            assert!(!success);
            assert_eq!(msg.unwrap(), "Authentication failed");
        }
        other => panic!("expected a failed AuthResult, got {other:?}"),
    }
}

#[test]
fn every_reader_event_carries_the_connection_address() {
    let addr = PeerAddr::v4(10, 0, 0, 7, 4242);
    let join = ClientMessage::JoinRoom(Room {
        username: "a".to_string(),
        room_name: "lounge".to_string(),
    });
    let events = run_reader(
        vec![
            WsInput::Text(Some(send_msg("a", "hi"))),
            WsInput::Text(None),
            WsInput::Text(Some(join)),
            WsInput::Text(Some(authenticate_msg("b", "p", "r"))),
            WsInput::Text(Some(send_msg("a", "again"))),
        ],
        addr,
    );
    assert_eq!(events.len(), 4);
    for e in &events {
        let a = match e {
            BrokerEvent::Broadcast { sender_addr, .. } => *sender_addr,
            BrokerEvent::JoinRoom { sender_addr, .. } => *sender_addr,
            BrokerEvent::Disconnect { addr, .. } => *addr,
            other => panic!("unexpected event {other:?}"),
        };
        assert_eq!(a, addr);
    }
    assert!(matches!(events[3], BrokerEvent::Disconnect { .. }));
}

#[test]
fn event_of_now_is_stamped_day_month_year_time() {
    let action = reader_step_now(WsInput::Text(Some(send_msg("a", "hi"))), test_addr());
    let Some(BrokerEvent::Broadcast { timestamp, .. }) = action.event else {
        panic!("expected Broadcast");
    };
    let c: Vec<char> = timestamp.chars().collect();
    let n = c.len();
    assert!(n >= 19, "{timestamp}");
    let digits = [0, 1, 3, 4, n - 8, n - 7, n - 5, n - 4, n - 2, n - 1];
    for i in digits {
        assert!(c[i].is_ascii_digit(), "{timestamp}");
    }
    assert_eq!((c[2], c[5], c[n - 9], c[n - 6], c[n - 3]), ('/', '/', ' ', ':', ':'));
}
