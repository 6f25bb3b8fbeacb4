use ams::layers::transmit::Cmd;
use ams::manager::{Action, ManagerState, Unsecure};
use ams::session::Session;
use ams::{Command, Event};

fn addr(s: &str) -> String {
    s.to_string()
}

/// Drives a message from one manager through a sending session, over the
/// in-memory wire, into a receiving session and its manager, like the two
/// host processes of the engine would.
#[test]
fn message_travels_end_to_end() {
    // The sending side: a manager at 9000 with a session to 9001.
    let mut sender_mgr = ManagerState::new(addr("127.0.0.1:9000"));
    sender_mgr.on_connect_result(addr("127.0.0.1:9001"), true);
    let mut sender_session: Session<Unsecure> = Session::new(addr("127.0.0.1:9001"));

    // The host asks to send "hi".
    let actions = sender_mgr
        .on_command(Command::SendMessage { addr: addr("127.0.0.1:9001"), data: b"hi".to_vec() }, 1);
    let message = match &actions[0] {
        Action::ForwardMessage { message, .. } => message.clone(),
        other => panic!("unexpected action: {:?}", other),
    };
    assert!(matches!(
        &actions[1],
        Action::Emit { event: Event::MessageSent { message_id: 0, .. } }
    ));

    // The session frames the message for the socket.
    let wire = sender_session.on_command(Cmd::SendMessage(message)).unwrap();

    // The receiving side: a session for the peer at 9000, fed the raw
    // bytes the socket read.
    let mut receiver_session: Session<Unsecure> = Session::new(addr("127.0.0.1:9000"));
    let cmds = receiver_session.on_bytes(&wire);
    assert_eq!(cmds.len(), 1);

    // The receiving manager surfaces the message, attributed to the peer.
    let mut receiver_mgr = ManagerState::new(addr("127.0.0.1:9001"));
    receiver_mgr.on_inbound_decision(addr("127.0.0.1:9000"), true);
    let mut events = Vec::new();
    for cmd in cmds {
        events.extend(receiver_mgr.on_command(cmd, 2));
    }
    assert_eq!(
        events,
        vec![
            Action::Emit {
                event: Event::MessageReceived {
                    peer: addr("127.0.0.1:9000"),
                    message_id: 0,
                    payload: b"hi".to_vec(),
                    timestamp: 2,
                },
            },
        ]
    );
}

#[test]
fn messages_arrive_in_send_order() {
    let mut sender: Session<Unsecure> = Session::new(addr("127.0.0.1:9001"));
    let m1 = ams::api::Message { id: 0, payload: b"first".to_vec(), sender: addr("a") };
    let m2 = ams::api::Message { id: 1, payload: b"second".to_vec(), sender: addr("a") };
    let mut wire = sender.on_command(Cmd::SendMessage(m1)).unwrap();
    wire.extend_from_slice(&sender.on_command(Cmd::SendMessage(m2)).unwrap());

    let mut receiver: Session<Unsecure> = Session::new(addr("127.0.0.1:9000"));
    let cmds = receiver.on_bytes(&wire);
    assert_eq!(cmds.len(), 2);
    match (&cmds[0], &cmds[1]) {
        (
            Command::Received { message: first, .. },
            Command::Received { message: second, .. },
        ) => {
            assert_eq!(first.payload, b"first".to_vec());
            assert_eq!(second.payload, b"second".to_vec());
        },
        other => panic!("unexpected commands: {:?}", other),
    }
}

#[test]
fn received_messages_are_attributed_to_the_peer() {
    let mut sender: Session<Unsecure> = Session::new(addr("x"));
    let m = ams::api::Message { id: 7, payload: b"p".to_vec(), sender: addr("127.0.0.1:9001") };
    let wire = sender.on_command(Cmd::SendMessage(m)).unwrap();

    let mut receiver: Session<Unsecure> = Session::new(addr("127.0.0.1:9001"));
    let cmds = receiver.on_bytes(&wire);
    match &cmds[0] {
        Command::Received { addr: from, .. } => assert_eq!(from, "127.0.0.1:9001"),
        other => panic!("unexpected command: {:?}", other),
    }
}

#[test]
fn partial_reads_are_buffered_across_calls() {
    let mut sender: Session<Unsecure> = Session::new(addr("peer"));
    let m = ams::api::Message { id: 0, payload: b"split".to_vec(), sender: addr("s") };
    let wire = sender.on_command(Cmd::SendMessage(m)).unwrap();

    let mut receiver: Session<Unsecure> = Session::new(addr("peer"));
    let first_half: Vec<u8> = wire[..wire.len() / 2].to_vec();
    let second_half: Vec<u8> = wire[wire.len() / 2..].to_vec();
    assert!(receiver.on_bytes(&first_half).is_empty());
    let cmds = receiver.on_bytes(&second_half);
    assert_eq!(cmds.len(), 1);
    match &cmds[0] {
        Command::Received { message, .. } => assert_eq!(message.payload, b"split".to_vec()),
        other => panic!("unexpected command: {:?}", other),
    }
}

#[test]
fn transport_trouble_asks_for_disconnect() {
    let session: Session<Unsecure> = Session::new(addr("127.0.0.1:9001"));
    assert_eq!(
        session.on_write_error(),
        Command::Disconnect { addr: addr("127.0.0.1:9001") }
    );
    assert_eq!(
        session.on_transport_closed(),
        Command::Disconnect { addr: addr("127.0.0.1:9001") }
    );
}

#[test]
fn undecodable_frame_produces_no_command() {
    let mut receiver: Session<Unsecure> = Session::new(addr("peer"));
    // A complete frame whose payload is not a message encoding.
    let frame = ams::frame::encode_frame(&vec![1, 2, 3]).unwrap();
    assert!(receiver.on_bytes(&frame).is_empty());
}

/// A remote peer that shuts down closes the socket; the session reports it
/// and the manager surfaces exactly one disconnection.
#[test]
fn remote_closure_surfaces_one_disconnect() {
    let mut manager = ManagerState::new(addr("127.0.0.1:9001"));
    manager.on_connect_result(addr("127.0.0.1:9000"), true);
    let session: Session<Unsecure> = Session::new(addr("127.0.0.1:9000"));

    // The socket read ends; the session asks the manager to disconnect.
    let notice = session.on_transport_closed();
    let actions = manager.on_command(notice, 9);
    assert_eq!(
        actions,
        vec![
            Action::CancelSession { addr: addr("127.0.0.1:9000") },
            Action::Emit {
                event: Event::ConnectionDisconnected { peer: addr("127.0.0.1:9000") },
            },
        ]
    );
    // The cancelled session drains its queue and exits; a write error that
    // raced the closure re-enters as a second disconnect and is silent.
    let second = manager.on_command(session.on_write_error(), 10);
    assert!(second.is_empty());
}
