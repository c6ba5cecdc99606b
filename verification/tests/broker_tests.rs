use chatter::addr::PeerAddr;
use chatter::broker::Broker;
use chatter::broker_msgs::{BrokerClient, BrokerEvent, BrokerRsp, BrokerToClientMsg};
use chatter::ws_messages::ServerMessage;
use tokio::sync::mpsc;
use tokio::sync::mpsc::UnboundedReceiver;

fn fake_client(
    addr: PeerAddr,
    user: &str,
    room: &str,
) -> (BrokerClient, UnboundedReceiver<BrokerToClientMsg>) {
    let (tx, rx) = mpsc::unbounded_channel();
    (
        BrokerClient {
            str_id: user.to_string(),
            addr,
            room_name: room.to_string(),
            broker_to_client: tx,
        },
        rx,
    )
}

fn test_timestamp() -> String {
    "17/06/2026 18:30:00".to_string()
}

fn add_user(broker: &mut Broker, client: BrokerClient) {
    broker.handle_event(BrokerEvent::AddUserToBroker {
        client,
        timestamp: test_timestamp(),
    });
}

fn check_response(rx_from_client: &mut UnboundedReceiver<BrokerToClientMsg>) {
    match rx_from_client.try_recv() {
        Ok(BrokerToClientMsg::Response(BrokerRsp::AddedToBroker { status })) => {
            assert!(status, "Broker has not connected client");
        }
        Ok(BrokerToClientMsg::Response(BrokerRsp::JoinRoom { status, .. })) => {
            assert!(status, "Broker has not joined a room");
        }
        Ok(BrokerToClientMsg::ChatMessage { .. }) => {}
        Ok(BrokerToClientMsg::UserLogoutNtf { .. }) => {}
        Ok(BrokerToClientMsg::Notification { .. }) => {}
        Err(e) => {
            panic!("Issue with broker {}.", e);
        }
    }
}

#[test]
fn broker_tests_test_broker_connection_success() {
    let mut broker = Broker::new();
    let addr = PeerAddr::v4(127, 0, 0, 1, 8080);
    let (client, mut rx) = fake_client(addr, "Alice", "games");
    add_user(&mut broker, client);
    check_response(&mut rx);
}

#[test]
fn broker_tests_test_broker_broadcast_success() {
    let mut broker = Broker::new();
    let addr = PeerAddr::v4(127, 0, 0, 1, 8080);
    let (client, mut rx) = fake_client(addr, "Alice", "games");

    add_user(&mut broker, client);
    check_response(&mut rx);

    broker.handle_event(BrokerEvent::Broadcast {
        sender_addr: addr,
        str_message: "Hello World".into(),
        timestamp: test_timestamp(),
    });
    // Sender receives their own ChatMessage (broadcast goes to everyone in room)
    match rx.try_recv() {
        Ok(BrokerToClientMsg::ChatMessage {
            sender_name, text, ..
        }) => {
            assert_eq!(sender_name, "Alice");
            assert_eq!(text, "Hello World");
        }
        other => panic!("Alice expected own ChatMessage, got {:?}", other),
    }
    // Nothing else
    assert!(rx.try_recv().is_err(), "No second message expected for sender");
}

#[test]
fn broadcast_to_multiple_clients_in_same_room() {
    let mut broker = Broker::new();
    let addr_alice = PeerAddr::v4(127, 0, 0, 1, 6001);
    let addr_bob = PeerAddr::v4(127, 0, 0, 1, 6002);

    let (alice, mut rx_alice) = fake_client(addr_alice, "Alice", "games");
    let (bob, mut rx_bob) = fake_client(addr_bob, "Bob", "games");

    add_user(&mut broker, alice);
    check_response(&mut rx_alice);
    add_user(&mut broker, bob);
    check_response(&mut rx_bob);

    broker.handle_event(BrokerEvent::Broadcast {
        sender_addr: addr_alice,
        str_message: "Hi everyone!".into(),
        timestamp: test_timestamp(),
    });

    // Alice receives her own ChatMessage (broadcast goes to everyone in room)
    match rx_alice.try_recv() {
        Ok(BrokerToClientMsg::ChatMessage {
            sender_name, text, ..
        }) => {
            assert_eq!(sender_name, "Alice");
            assert_eq!(text.to_string(), "Hi everyone!");
        }
        other => panic!("Alice expected own ChatMessage, got {:?}", other),
    }
    // Nothing else for Alice
    assert!(rx_alice.try_recv().is_err(), "No second message for Alice");

    // Bob should receive Alice's chat message
    match rx_bob.try_recv() {
        Ok(BrokerToClientMsg::ChatMessage {
            sender_name, text, ..
        }) => {
            assert_eq!(sender_name, "Alice");
            assert_eq!(text.to_string(), "Hi everyone!");
        }
        other => panic!("Bob expected chat message from Alice, got {:?}", other),
    }
}

#[test]
fn broadcast_only_sender_in_room() {
    let mut broker = Broker::new();
    let addr = PeerAddr::v4(127, 0, 0, 1, 6003);
    let (client, mut rx) = fake_client(addr, "Solo", "empty");

    add_user(&mut broker, client);
    check_response(&mut rx);

    broker.handle_event(BrokerEvent::Broadcast {
        sender_addr: addr,
        str_message: "Nobody here".into(),
        timestamp: test_timestamp(),
    });

    // Solo receives own ChatMessage (broadcast goes to everyone in room)
    match rx.try_recv() {
        Ok(BrokerToClientMsg::ChatMessage {
            sender_name, text, ..
        }) => {
            assert_eq!(sender_name, "Solo");
            assert_eq!(text.to_string(), "Nobody here");
        }
        other => panic!("Solo expected own ChatMessage, got {:?}", other),
    }
    // Nothing else
    assert!(rx.try_recv().is_err(), "No second message for Solo");
}

#[test]
fn broadcast_does_not_cross_rooms() {
    let mut broker = Broker::new();
    let addr_alice = PeerAddr::v4(127, 0, 0, 1, 6004);
    let addr_bob = PeerAddr::v4(127, 0, 0, 1, 6005);

    let (alice, mut rx_alice) = fake_client(addr_alice, "Alice", "room_a");
    let (bob, mut rx_bob) = fake_client(addr_bob, "Bob", "room_b");

    add_user(&mut broker, alice);
    check_response(&mut rx_alice);
    add_user(&mut broker, bob);
    check_response(&mut rx_bob);

    broker.handle_event(BrokerEvent::Broadcast {
        sender_addr: addr_alice,
        str_message: "Wrong room!".into(),
        timestamp: test_timestamp(),
    });

    // Alice receives own ChatMessage (broadcast goes to everyone in room)
    match rx_alice.try_recv() {
        Ok(BrokerToClientMsg::ChatMessage { .. }) => {}
        other => panic!("Alice expected own ChatMessage, got {:?}", other),
    }
    // Nothing else for Alice
    assert!(rx_alice.try_recv().is_err(), "No second message for Alice");

    // Bob should NOT receive anything
    assert!(
        rx_bob.try_recv().is_err(),
        "Bob should not receive messages from a different room"
    );
}

#[test]
fn broker_tests_join_room_first_connect_creates_room_success() {
    let mut broker = Broker::new();
    let addr = PeerAddr::v4(127, 0, 0, 1, 5000);
    let (client, mut rx) = fake_client(addr, "Alice", "games");

    add_user(&mut broker, client);
    check_response(&mut rx);

    broker.handle_event(BrokerEvent::JoinRoom {
        sender_addr: addr,
        room_name: "lounge".into(),
        timestamp: test_timestamp(),
    });
    check_response(&mut rx);
}

#[test]
fn broker_tests_join_room_first_connect_duplicate_client_fails() {
    let mut broker = Broker::new();
    let addr = PeerAddr::v4(127, 0, 0, 1, 5001);
    let (client1, mut rx1) = fake_client(addr, "Alice", "games");
    let (client2, mut rx2) = fake_client(addr, "Alice", "other");

    add_user(&mut broker, client1);
    check_response(&mut rx1);

    add_user(&mut broker, client2);

    match rx2.try_recv() {
        Ok(BrokerToClientMsg::Response(BrokerRsp::AddedToBroker { status })) => {
            assert!(!status, "Duplicate FirstConnect should fail");
        }
        other => panic!("Unexpected response on rx2: {:?}", other),
    }
}

#[test]
fn broker_tests_join_room_room_move_to_new_room_success() {
    let mut broker = Broker::new();
    let addr = PeerAddr::v4(127, 0, 0, 1, 5002);
    let (client, mut rx) = fake_client(addr, "Alice", "games");

    add_user(&mut broker, client);
    check_response(&mut rx);

    broker.handle_event(BrokerEvent::JoinRoom {
        sender_addr: addr,
        room_name: "lounge".into(),
        timestamp: test_timestamp(),
    });
    check_response(&mut rx);
}

#[test]
fn broker_tests_join_room_room_move_to_existing_room_success() {
    let mut broker = Broker::new();
    let addr_a = PeerAddr::v4(127, 0, 0, 1, 5003);
    let addr_b = PeerAddr::v4(127, 0, 0, 1, 5004);

    let (client_a, mut rx_a) = fake_client(addr_a, "Alice", "games");
    let (client_b, mut rx_b) = fake_client(addr_b, "Bob", "lounge");

    add_user(&mut broker, client_a);
    check_response(&mut rx_a);
    add_user(&mut broker, client_b);
    check_response(&mut rx_b);

    broker.handle_event(BrokerEvent::JoinRoom {
        sender_addr: addr_b,
        room_name: "games".into(),
        timestamp: test_timestamp(),
    });
    check_response(&mut rx_b);
}

#[test]
fn broker_tests_join_room_room_move_unknown_addr_fails() {
    let mut broker = Broker::new();
    let addr = PeerAddr::v4(127, 0, 0, 1, 5005);
    let (client, mut rx) = fake_client(addr, "Alice", "games");

    add_user(&mut broker, client);
    check_response(&mut rx);

    let unknown = PeerAddr::v4(127, 0, 0, 1, 9999);
    broker.handle_event(BrokerEvent::JoinRoom {
        sender_addr: unknown,
        room_name: "games".into(),
        timestamp: test_timestamp(),
    });

    assert!(
        rx.try_recv().is_err(),
        "No response should be sent for unknown addr"
    );
}

#[test]
fn broker_tests_join_room_room_move_same_room_fails() {
    let mut broker = Broker::new();
    let addr = PeerAddr::v4(127, 0, 0, 1, 5006);
    let (client, mut rx) = fake_client(addr, "Alice", "games");

    add_user(&mut broker, client);
    check_response(&mut rx);

    broker.handle_event(BrokerEvent::JoinRoom {
        sender_addr: addr,
        room_name: "games".into(),
        timestamp: test_timestamp(),
    });

    match rx.try_recv() {
        Ok(BrokerToClientMsg::Response(BrokerRsp::JoinRoom { status, created })) => {
            assert!(!status, "Same room move should fail");
            assert!(!created);
        }
        other => panic!("Unexpected response: {:?}", other),
    }
}

#[test]
fn tests_test_broker_connection_success() {
    let mut broker = Broker::new();
    let addr = PeerAddr::v4(127, 0, 0, 1, 8080);
    let (client, mut rx) = fake_client(addr, "Alice", "games");
    add_user(&mut broker, client);
    check_response(&mut rx);
}

#[test]
fn tests_join_room_first_connect_creates_room_success() {
    let mut broker = Broker::new();
    let addr = PeerAddr::v4(127, 0, 0, 1, 5000);
    let (client, mut rx) = fake_client(addr, "Alice", "games");

    add_user(&mut broker, client);
    check_response(&mut rx);

    broker.handle_event(BrokerEvent::JoinRoom {
        sender_addr: addr,
        room_name: "lounge".into(),
        timestamp: test_timestamp(),
    });
    check_response(&mut rx);
}

#[test]
fn tests_join_room_first_connect_duplicate_client_fails() {
    let mut broker = Broker::new();
    let addr = PeerAddr::v4(127, 0, 0, 1, 5001);
    let (client1, mut rx1) = fake_client(addr, "Alice", "games");
    let (client2, mut rx2) = fake_client(addr, "Alice", "other");

    add_user(&mut broker, client1);
    check_response(&mut rx1);
    add_user(&mut broker, client2);

    match rx2.try_recv() {
        Ok(BrokerToClientMsg::Response(BrokerRsp::AddedToBroker { status })) => {
            assert!(!status, "Duplicate FirstConnect should fail");
        }
        other => panic!("Unexpected response on rx2: {:?}", other),
    }
}

#[test]
fn tests_join_room_room_move_to_new_room_success() {
    let mut broker = Broker::new();
    let addr = PeerAddr::v4(127, 0, 0, 1, 5002);
    let (client, mut rx) = fake_client(addr, "Alice", "games");

    add_user(&mut broker, client);
    check_response(&mut rx);

    broker.handle_event(BrokerEvent::JoinRoom {
        sender_addr: addr,
        room_name: "lounge".into(),
        timestamp: test_timestamp(),
    });
    check_response(&mut rx);
}

#[test]
fn tests_join_room_room_move_to_existing_room_success() {
    let mut broker = Broker::new();
    let addr_a = PeerAddr::v4(127, 0, 0, 1, 5003);
    let addr_b = PeerAddr::v4(127, 0, 0, 1, 5004);

    let (client_a, mut rx_a) = fake_client(addr_a, "Alice", "games");
    let (client_b, mut rx_b) = fake_client(addr_b, "Bob", "lounge");

    add_user(&mut broker, client_a);
    check_response(&mut rx_a);
    add_user(&mut broker, client_b);
    check_response(&mut rx_b);

    broker.handle_event(BrokerEvent::JoinRoom {
        sender_addr: addr_b,
        room_name: "games".into(),
        timestamp: test_timestamp(),
    });
    check_response(&mut rx_b);
}

#[test]
fn tests_join_room_room_move_unknown_addr_fails() {
    let mut broker = Broker::new();
    let addr = PeerAddr::v4(127, 0, 0, 1, 5005);
    let (client, mut rx) = fake_client(addr, "Alice", "games");

    add_user(&mut broker, client);
    check_response(&mut rx);

    let unknown = PeerAddr::v4(127, 0, 0, 1, 9999);
    broker.handle_event(BrokerEvent::JoinRoom {
        sender_addr: unknown,
        room_name: "games".into(),
        timestamp: test_timestamp(),
    });

    assert!(
        rx.try_recv().is_err(),
        "No response should be sent for unknown addr"
    );
}

#[test]
fn tests_join_room_room_move_same_room_fails() {
    let mut broker = Broker::new();
    let addr = PeerAddr::v4(127, 0, 0, 1, 5006);
    let (client, mut rx) = fake_client(addr, "Alice", "games");

    add_user(&mut broker, client);
    check_response(&mut rx);

    broker.handle_event(BrokerEvent::JoinRoom {
        sender_addr: addr,
        room_name: "games".into(),
        timestamp: test_timestamp(),
    });

    match rx.try_recv() {
        Ok(BrokerToClientMsg::Response(BrokerRsp::JoinRoom { status, created })) => {
            assert!(!status, "Same room move should fail");
            assert!(!created);
        }
        other => panic!("Unexpected response: {:?}", other),
    }
}

#[test]
fn disconnect_notifies_rest_of_room_and_removes_empty_room() {
    let mut broker = Broker::new();
    let addr_alice = PeerAddr::v4(10, 0, 0, 1, 1);
    let addr_bob = PeerAddr::v4(10, 0, 0, 2, 2);
    let addr_carol = PeerAddr::v4(10, 0, 0, 3, 3);
    let (alice, mut rx_alice) = fake_client(addr_alice, "alice", "games");
    let (bob, mut rx_bob) = fake_client(addr_bob, "bob", "games");
    let (carol, mut rx_carol) = fake_client(addr_carol, "carol", "other");
    add_user(&mut broker, alice);
    add_user(&mut broker, bob);
    add_user(&mut broker, carol);
    check_response(&mut rx_alice);
    check_response(&mut rx_bob);
    check_response(&mut rx_carol);

    broker.handle_event(BrokerEvent::Disconnect {
        addr: addr_alice,
        timestamp: test_timestamp(),
    });
    match rx_bob.try_recv() {
        Ok(BrokerToClientMsg::UserLogoutNtf { text, timestamp }) => {
            assert_eq!(text, "alice has left the room");
            assert_eq!(timestamp, test_timestamp());
        }
        other => panic!("Bob expected a logout notification, got {:?}", other),
    }
    assert!(rx_carol.try_recv().is_err());

    // Bob leaves too; the room is now empty and removed, so a newcomer creates it.
    broker.handle_event(BrokerEvent::Disconnect {
        addr: addr_bob,
        timestamp: test_timestamp(),
    });
    broker.handle_event(BrokerEvent::JoinRoom {
        sender_addr: addr_carol,
        room_name: "games".into(),
        timestamp: test_timestamp(),
    });
    match rx_carol.try_recv() {
        Ok(BrokerToClientMsg::Response(BrokerRsp::JoinRoom { status, created })) => {
            assert!(status);
            assert!(created);
        }
        other => panic!("Carol expected a JoinRoom response, got {:?}", other),
    }
}

#[test]
fn disconnect_of_unknown_address_is_ignored_and_broker_keeps_serving() {
    let mut broker = Broker::new();
    broker.handle_event(BrokerEvent::Disconnect {
        addr: PeerAddr::v4(127, 0, 0, 1, 7000),
        timestamp: test_timestamp(),
    });
    let (bob, mut rx_bob) = fake_client(PeerAddr::v4(127, 0, 0, 1, 6002), "Bob", "games");
    add_user(&mut broker, bob);
    match rx_bob.try_recv() {
        Ok(BrokerToClientMsg::Response(BrokerRsp::AddedToBroker { status })) => assert!(status),
        other => panic!("Bob expected to be added, got {:?}", other),
    }
}

#[test]
fn refused_duplicate_keeps_first_client_channel() {
    let mut broker = Broker::new();
    let addr = PeerAddr::v4(127, 0, 0, 1, 5001);
    let (first, mut rx1) = fake_client(addr, "Alice", "games");
    let (second, mut rx2) = fake_client(addr, "Alice", "other");
    add_user(&mut broker, first);
    check_response(&mut rx1);
    add_user(&mut broker, second);
    assert!(rx1.try_recv().is_err());
    match rx2.try_recv() {
        Ok(BrokerToClientMsg::Response(BrokerRsp::AddedToBroker { status })) => assert!(!status),
        other => panic!("expected a refusal, got {:?}", other),
    }
    // The first client is still reached on its own channel, in room "games".
    broker.handle_event(BrokerEvent::Broadcast {
        sender_addr: addr,
        str_message: "still here".into(),
        timestamp: test_timestamp(),
    });
    match rx1.try_recv() {
        Ok(BrokerToClientMsg::ChatMessage { text, .. }) => assert_eq!(text, "still here"),
        other => panic!("expected a chat, got {:?}", other),
    }
    assert!(rx2.try_recv().is_err());
}

#[test]
fn move_leaves_old_room_and_joins_existing_room() {
    let mut broker = Broker::new();
    let addr_alice = PeerAddr::v4(10, 0, 0, 1, 1);
    let addr_bob = PeerAddr::v4(10, 0, 0, 2, 2);
    let (alice, mut rx_alice) = fake_client(addr_alice, "alice", "a");
    let (bob, mut rx_bob) = fake_client(addr_bob, "bob", "b");
    add_user(&mut broker, alice);
    add_user(&mut broker, bob);
    check_response(&mut rx_alice);
    check_response(&mut rx_bob);

    broker.handle_event(BrokerEvent::JoinRoom {
        sender_addr: addr_alice,
        room_name: "b".into(),
        timestamp: test_timestamp(),
    });
    match rx_alice.try_recv() {
        Ok(BrokerToClientMsg::Response(BrokerRsp::JoinRoom { status, created })) => {
            assert!(status);
            assert!(!created);
        }
        other => panic!("Alice expected a JoinRoom response, got {:?}", other),
    }

    broker.handle_event(BrokerEvent::Broadcast {
        sender_addr: addr_bob,
        str_message: "hi".into(),
        timestamp: test_timestamp(),
    });
    // Bob entered room b first, then Alice; both get the chat.
    match rx_bob.try_recv() {
        Ok(BrokerToClientMsg::ChatMessage { sender, sender_name, text, timestamp }) => {
            assert_eq!(sender, addr_bob);
            assert_eq!(sender_name, "bob");
            assert_eq!(text, "hi");
            assert_eq!(timestamp, test_timestamp());
        }
        other => panic!("Bob expected a chat, got {:?}", other),
    }
    match rx_alice.try_recv() {
        Ok(BrokerToClientMsg::ChatMessage { sender_name, .. }) => assert_eq!(sender_name, "bob"),
        other => panic!("Alice expected a chat, got {:?}", other),
    }
}

#[test]
fn broadcast_from_unknown_sender_sends_nothing() {
    let mut broker = Broker::new();
    let addr = PeerAddr::v4(10, 0, 0, 1, 1);
    let (alice, mut rx) = fake_client(addr, "alice", "a");
    add_user(&mut broker, alice);
    check_response(&mut rx);
    broker.handle_event(BrokerEvent::Broadcast {
        sender_addr: PeerAddr::v4(10, 0, 0, 9, 9),
        str_message: "x".into(),
        timestamp: test_timestamp(),
    });
    assert!(rx.try_recv().is_err());
}


#[test]
fn tryfrom_broker_connected_success() {
    let msg = BrokerToClientMsg::Response(BrokerRsp::AddedToBroker { status: true });
    let result = ServerMessage::try_from(msg);
    assert!(result.is_ok());
    let result = result.unwrap();
    assert!(matches!(
        result,
        ServerMessage::Notification { ref value, .. } if value == "Connected"
    ));
}

#[test]
fn tryfrom_broker_connected_failure() {
    let msg = BrokerToClientMsg::Response(BrokerRsp::AddedToBroker { status: false });
    let result = ServerMessage::try_from(msg).unwrap();
    assert!(matches!(
        result,
        ServerMessage::Error { ref value } if value == "Connection failed"
    ));
}

#[test]
fn tryfrom_broker_joinroom_success_created() {
    let msg = BrokerToClientMsg::Response(BrokerRsp::JoinRoom {
        status: true,
        created: true,
    });
    let result = ServerMessage::try_from(msg).unwrap();
    assert!(matches!(
        result,
        ServerMessage::Notification { ref value, .. } if value == "Room created"
    ));
}

#[test]
fn tryfrom_broker_joinroom_success_joined() {
    let msg = BrokerToClientMsg::Response(BrokerRsp::JoinRoom {
        status: true,
        created: false,
    });
    let result = ServerMessage::try_from(msg).unwrap();
    assert!(matches!(
        result,
        ServerMessage::Notification { ref value, .. } if value == "Room joined"
    ));
}

#[test]
fn tryfrom_broker_joinroom_failure() {
    let msg = BrokerToClientMsg::Response(BrokerRsp::JoinRoom {
        status: false,
        created: false,
    });
    let result = ServerMessage::try_from(msg).unwrap();
    assert!(matches!(
        result,
        ServerMessage::Error { ref value } if value == "Join room failed"
    ));
}

#[test]
fn tryfrom_broker_chat_message() {
    let msg = BrokerToClientMsg::ChatMessage {
        sender: PeerAddr::v4(127, 0, 0, 1, 8080),
        sender_name: "alice".to_string(),
        text: "hello".to_string(),
        timestamp: "17/06/2026 18:30:00".to_string(),
    };
    let result = ServerMessage::try_from(msg).unwrap();
    assert!(matches!(
        result,
        ServerMessage::Chat { ref sender, ref message, ref timestamp }
        if sender == "alice" && message == "hello" && timestamp == "17/06/2026 18:30:00"
    ));
}

#[test]
fn tryfrom_broker_notification() {
    let msg = BrokerToClientMsg::UserLogoutNtf {
        text: "user left".to_string(),
        timestamp: "17/06/2026 18:30:00".to_string(),
    };
    let result = ServerMessage::try_from(msg).unwrap();
    assert!(matches!(
        result,
        ServerMessage::UserLogoutNtf { ref value, ref timestamp }
        if value == "user left" && timestamp == "17/06/2026 18:30:00"
    ));
}
