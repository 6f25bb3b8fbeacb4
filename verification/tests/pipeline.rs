use ams::api::Message;
use ams::codec::encode_message;
use ams::controller::{Cmd2, Cmd3, Controller, Stack1, Stack2, Stack3};
use ams::layers::tag::{Tag, TagCmd};
use ams::layers::transmit::{Cmd, Transmit};
use ams::Command;

fn msg(id: u64, payload: &[u8], sender: &str) -> Message {
    Message { id, payload: payload.to_vec(), sender: sender.to_string() }
}

#[test]
fn single_layer_sends_plain_encoding() {
    let mut stack: Stack1<Transmit> = Stack1 { l1: Transmit };
    let m = msg(5, b"payload", "me");
    let bytes = stack.process_cmd(Cmd::SendMessage(m.clone())).unwrap();
    assert_eq!(bytes, encode_message(&m).unwrap());
}

#[test]
fn single_layer_reports_decoded_message() {
    let mut stack: Stack1<Transmit> = Stack1 { l1: Transmit };
    let m = msg(5, b"payload", "me");
    let mut frame = encode_message(&m).unwrap();
    let cmds = stack.process_incoming_frame(&mut frame);
    assert_eq!(cmds.len(), 1);
    match &cmds[0] {
        Command::Received { addr, message } => {
            assert_eq!(addr, "");
            assert_eq!(*message, m);
        },
        other => panic!("unexpected command: {:?}", other),
    }
}

#[test]
fn single_layer_drops_undecodable_frame() {
    let mut stack: Stack1<Transmit> = Stack1 { l1: Transmit };
    let mut frame: Vec<u8> = vec![1, 2, 3];
    let cmds = stack.process_incoming_frame(&mut frame);
    assert!(cmds.is_empty());
}

#[test]
fn dispatch_routes_to_exactly_one_layer() {
    // The outermost layer's command goes out unwrapped; the innermost
    // layer's bytes are wrapped by the outer one.
    let mut stack: Stack2<Tag, Transmit> = Stack2 { l1: Tag::new(0xaa), l2: Transmit };
    let probe = stack.process_cmd(Cmd2::First(TagCmd::Probe)).unwrap();
    assert_eq!(probe, vec![0xaa]);

    let m = msg(1, b"x", "s");
    let sent = stack.process_cmd(Cmd2::Second(Cmd::SendMessage(m.clone()))).unwrap();
    let mut expected = vec![0xaa];
    expected.extend_from_slice(&encode_message(&m).unwrap());
    assert_eq!(sent, expected);
}

#[test]
fn outbound_wrap_order_is_middle_then_outermost() {
    let mut stack: Stack3<Tag, Tag, Transmit> =
        Stack3 { l1: Tag::new(0xaa), l2: Tag::new(0xbb), l3: Transmit };
    let m = msg(9, b"body", "s");
    let bytes = stack.process_cmd(Cmd3::Third(Cmd::SendMessage(m.clone()))).unwrap();
    // The middle layer stamps first, the outermost stamps last and so
    // comes first on the wire.
    assert_eq!(bytes[0], 0xaa);
    assert_eq!(bytes[1], 0xbb);
    assert_eq!(&bytes[2..], encode_message(&m).unwrap().as_slice());
}

#[test]
fn inbound_unwrap_order_is_innermost_first() {
    let mut stack: Stack3<Tag, Tag, Transmit> =
        Stack3 { l1: Tag::new(0xaa), l2: Tag::new(0xbb), l3: Transmit };
    // The innermost layer sees the frame first: with the middle tag at the
    // front, the middle layer strips before the outermost one.
    let mut frame: Vec<u8> = vec![0xbb, 0xaa, 7, 7];
    let cmds = stack.process_incoming_frame(&mut frame);
    assert!(cmds.is_empty());
    assert_eq!(frame, vec![7, 7]);

    // With the outermost tag at the front instead, the middle layer finds
    // nothing to strip and only the outermost one strips.
    let mut frame2: Vec<u8> = vec![0xaa, 0xbb, 7];
    let cmds2 = stack.process_incoming_frame(&mut frame2);
    assert!(cmds2.is_empty());
    assert_eq!(frame2, vec![0xbb, 7]);
}

#[test]
fn tag_probe_wrapped_by_outer_layers() {
    let mut stack: Stack3<Tag, Tag, Transmit> =
        Stack3 { l1: Tag::new(0x01), l2: Tag::new(0x02), l3: Transmit };
    // A command owned by the middle layer is wrapped by the outermost
    // layer only.
    let bytes = stack.process_cmd(Cmd3::Second(TagCmd::Probe)).unwrap();
    assert_eq!(bytes, vec![0x01, 0x02]);
    // A command owned by the outermost layer is not wrapped at all.
    let bytes2 = stack.process_cmd(Cmd3::First(TagCmd::Probe)).unwrap();
    assert_eq!(bytes2, vec![0x01]);
}

#[test]
fn initialize_builds_every_layer() {
    let stack: Stack3<Tag, Tag, Transmit> = Controller::initialize();
    assert_eq!(stack.l1.tag, 0);
    assert_eq!(stack.l2.tag, 0);
}
