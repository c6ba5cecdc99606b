use chatter::client::{auth_accepted, handle_incoming_server_msg, own_message_line, parse_command, Command, Context, Incoming};
use chatter::ws_messages::ServerMessage;

fn ctx(user: Option<&str>) -> Context {
    Context::new(
        user.map(|u| u.to_string()),
        None,
        "127.0.0.1".to_string(),
        8080,
        "waiting_room".to_string(),
    )
}

#[test]
fn get_user_defaults_to_not_defined() {
    assert_eq!(ctx(None).get_user(), "Not defined");
    assert_eq!(ctx(Some("")).get_user(), "Not defined");
    assert_eq!(ctx(Some("alice")).get_user(), "alice");
}

#[test]
fn new_context_is_disconnected_with_empty_password() {
    let c = ctx(Some("alice"));
    assert!(!c.connected);
    assert_eq!(c.password, "");
    assert_eq!(c.server_port, 8080);
    assert_eq!(c.room, "waiting_room");
}

#[test]
fn connection_status_label() {
    let mut c = ctx(None);
    assert_eq!(c.set_connection_status(true), "Connected");
    assert!(c.connected);
    assert_eq!(c.set_connection_status(false), "Disconnected");
    assert!(!c.connected);
}

#[test]
fn commands_are_recognised() {
    assert_eq!(parse_command(&"".to_string()), Command::Nothing);
    assert_eq!(parse_command(&"/help".to_string()), Command::Help);
    assert_eq!(parse_command(&"/clear".to_string()), Command::Clear);
    assert_eq!(parse_command(&"/connect".to_string()), Command::Connect);
    assert_eq!(parse_command(&"/debug".to_string()), Command::Debug);
    assert_eq!(parse_command(&"/quit".to_string()), Command::Quit);
    assert_eq!(parse_command(&"/quit now".to_string()), Command::Other);
    assert_eq!(parse_command(&"hello".to_string()), Command::Other);
}

#[test]
fn incoming_chat_is_shown_with_time_and_sender() {
    let m = ServerMessage::Chat {
        sender: "bob".to_string(),
        message: "hi".to_string(),
        timestamp: "12:00".to_string(),
    };
    match handle_incoming_server_msg(Some(m)) {
        Incoming::Show(line) => assert_eq!(line, "12:00-bob:hi"),
        other => panic!("expected Show, got {other:?}"),
    }
}

#[test]
fn incoming_other_messages() {
    let n = ServerMessage::Notification {
        value: "Connected".to_string(),
        timestamp: "t".to_string(),
    };
    assert!(matches!(handle_incoming_server_msg(Some(n)), Incoming::Ignore));
    let j = ServerMessage::JoinRoom {
        success: true,
        created: false,
        room_name: "r".to_string(),
    };
    match handle_incoming_server_msg(Some(j)) {
        Incoming::Notify(t) => assert_eq!(t, "Received wrong/unknown ServerMessage type."),
        other => panic!("expected Notify, got {other:?}"),
    }
    match handle_incoming_server_msg(None) {
        Incoming::Notify(t) => assert_eq!(t, "Unable to deserialize Server message."),
        other => panic!("expected Notify, got {other:?}"),
    }
}

#[test]
fn auth_reply_must_be_successful_auth_result() {
    assert!(auth_accepted(Some(ServerMessage::AuthResult {
        success: true,
        msg: None
    })));
    assert!(!auth_accepted(Some(ServerMessage::AuthResult {
        success: false,
        msg: None
    })));
    assert!(!auth_accepted(Some(ServerMessage::Error {
        value: "x".to_string()
    })));
    assert!(!auth_accepted(None));
}

#[test]
fn own_line_is_user_colon_message() {
    assert_eq!(
        own_message_line(&"alice".to_string(), &"hello".to_string()),
        "alice:hello"
    );
}

#[test]
fn incoming_user_logout_is_reported_as_unknown() {
    let m = ServerMessage::UserLogoutNtf {
        value: "alice has left the room".to_string(),
        timestamp: "12:00".to_string(),
    };
    match handle_incoming_server_msg(Some(m)) {
        Incoming::Notify(t) => assert_eq!(t, "Received wrong/unknown ServerMessage type."),
        other => panic!("expected Notify, got {other:?}"),
    }
}
