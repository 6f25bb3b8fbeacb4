use ams::manager::{Action, ManagerState};
use ams::{Command, Event};

fn addr(s: &str) -> String {
    s.to_string()
}

fn new_manager() -> ManagerState {
    ManagerState::new(addr("127.0.0.1:9000"))
}

#[test]
fn inbound_accept_establishes_and_spawns() {
    let mut manager = new_manager();
    let requested = manager.on_inbound_request(addr("127.0.0.1:50000"));
    assert_eq!(
        requested,
        vec![Action::Emit { event: Event::ConnectionRequested { peer: addr("127.0.0.1:50000") } }]
    );
    let actions = manager.on_inbound_decision(addr("127.0.0.1:50000"), true);
    assert_eq!(
        actions,
        vec![
            Action::SpawnSession { addr: addr("127.0.0.1:50000") },
            Action::Emit {
                event: Event::ConnectionEstablished { peer: addr("127.0.0.1:50000") },
            },
        ]
    );
    assert!(manager.has_session(&addr("127.0.0.1:50000")));
}

#[test]
fn inbound_reject_is_silent_and_leaves_no_entry() {
    let mut manager = new_manager();
    let actions = manager.on_inbound_decision(addr("127.0.0.1:50000"), false);
    assert!(actions.is_empty());
    assert!(!manager.has_session(&addr("127.0.0.1:50000")));
}

#[test]
fn connect_command_attempts_connection() {
    let mut manager = new_manager();
    let actions = manager.on_command(Command::Connect { addr: addr("127.0.0.1:9001") }, 0);
    assert_eq!(actions, vec![Action::AttemptConnect { addr: addr("127.0.0.1:9001") }]);
    assert!(!manager.has_session(&addr("127.0.0.1:9001")));
}

#[test]
fn successful_connect_establishes() {
    let mut manager = new_manager();
    let actions = manager.on_connect_result(addr("127.0.0.1:9001"), true);
    assert_eq!(
        actions,
        vec![
            Action::SpawnSession { addr: addr("127.0.0.1:9001") },
            Action::Emit { event: Event::ConnectionEstablished { peer: addr("127.0.0.1:9001") } },
        ]
    );
    assert!(manager.has_session(&addr("127.0.0.1:9001")));
}

#[test]
fn failed_connect_rejects_and_leaves_no_entry() {
    let mut manager = new_manager();
    let actions = manager.on_connect_result(addr("127.0.0.1:9001"), false);
    assert_eq!(
        actions,
        vec![Action::Emit { event: Event::ConnectionRejected { peer: addr("127.0.0.1:9001") } }]
    );
    assert!(!manager.has_session(&addr("127.0.0.1:9001")));
}

#[test]
fn send_to_known_peer_forwards_under_fresh_id() {
    let mut manager = new_manager();
    manager.on_connect_result(addr("127.0.0.1:9001"), true);
    let actions =
        manager.on_command(Command::SendMessage { addr: addr("127.0.0.1:9001"), data: b"hi".to_vec() }, 5);
    assert_eq!(actions.len(), 2);
    match &actions[0] {
        Action::ForwardMessage { addr: to, message } => {
            assert_eq!(to, "127.0.0.1:9001");
            assert_eq!(message.id, 0);
            assert_eq!(message.payload, b"hi".to_vec());
            assert_eq!(message.sender, "127.0.0.1:9000");
        },
        other => panic!("unexpected action: {:?}", other),
    }
    assert_eq!(
        actions[1],
        Action::Emit {
            event: Event::MessageSent { peer: addr("127.0.0.1:9001"), message_id: 0, timestamp: 5 },
        }
    );
    // The next message gets the next id.
    let actions2 =
        manager.on_command(Command::SendMessage { addr: addr("127.0.0.1:9001"), data: b"yo".to_vec() }, 6);
    match &actions2[0] {
        Action::ForwardMessage { message, .. } => assert_eq!(message.id, 1),
        other => panic!("unexpected action: {:?}", other),
    }
}

#[test]
fn send_to_unknown_peer_fails_without_traffic() {
    let mut manager = new_manager();
    let actions =
        manager.on_command(Command::SendMessage { addr: addr("127.0.0.1:9001"), data: b"hi".to_vec() }, 0);
    assert_eq!(
        actions,
        vec![
            Action::Emit {
                event: Event::MessageFailed { peer: addr("127.0.0.1:9001"), message_id: 0 },
            },
        ]
    );
}

#[test]
fn received_message_is_surfaced_with_timestamp() {
    let mut manager = new_manager();
    let message =
        ams::api::Message { id: 3, payload: b"data".to_vec(), sender: addr("127.0.0.1:9001") };
    let actions =
        manager.on_command(Command::Received { addr: addr("127.0.0.1:9001"), message }, 77);
    assert_eq!(
        actions,
        vec![
            Action::Emit {
                event: Event::MessageReceived {
                    peer: addr("127.0.0.1:9001"),
                    message_id: 3,
                    payload: b"data".to_vec(),
                    timestamp: 77,
                },
            },
        ]
    );
}

#[test]
fn disconnect_emits_exactly_once() {
    let mut manager = new_manager();
    manager.on_connect_result(addr("127.0.0.1:9001"), true);
    let first = manager.on_command(Command::Disconnect { addr: addr("127.0.0.1:9001") }, 0);
    assert_eq!(
        first,
        vec![
            Action::CancelSession { addr: addr("127.0.0.1:9001") },
            Action::Emit {
                event: Event::ConnectionDisconnected { peer: addr("127.0.0.1:9001") },
            },
        ]
    );
    assert!(!manager.has_session(&addr("127.0.0.1:9001")));
    // A concurrent remote closure re-enters as a second disconnect; it
    // must produce nothing.
    let second = manager.on_command(Command::Disconnect { addr: addr("127.0.0.1:9001") }, 1);
    assert!(second.is_empty());
}

#[test]
fn disconnect_unknown_peer_is_silent() {
    let mut manager = new_manager();
    let actions = manager.on_command(Command::Disconnect { addr: addr("127.0.0.1:9001") }, 0);
    assert!(actions.is_empty());
}

#[test]
fn shutdown_cancels_every_session_and_empties_table() {
    let mut manager = new_manager();
    manager.on_connect_result(addr("127.0.0.1:9001"), true);
    manager.on_inbound_decision(addr("127.0.0.1:9002"), true);
    let actions = manager.on_shutdown();
    assert_eq!(
        actions,
        vec![
            Action::CancelSession { addr: addr("127.0.0.1:9001") },
            Action::CancelSession { addr: addr("127.0.0.1:9002") },
        ]
    );
    assert!(!manager.has_session(&addr("127.0.0.1:9001")));
    assert!(!manager.has_session(&addr("127.0.0.1:9002")));
    // Shutting down again finds nothing left to cancel.
    assert!(manager.on_shutdown().is_empty());
}

#[test]
fn table_membership_follows_connection_events() {
    // Establish, disconnect, re-establish: membership tracks the latest
    // connection event for the address.
    let mut manager = new_manager();
    let peer = addr("127.0.0.1:9001");
    assert!(!manager.has_session(&peer));
    manager.on_connect_result(peer.clone(), true);
    assert!(manager.has_session(&peer));
    manager.on_command(Command::Disconnect { addr: peer.clone() }, 0);
    assert!(!manager.has_session(&peer));
    manager.on_inbound_decision(peer.clone(), true);
    assert!(manager.has_session(&peer));
}
