use ams::api::Message;
use ams::codec::{decode_message, encode_message};
use ams::frame::{encode_frame, FrameDecoder};

fn msg(id: u64, payload: &[u8], sender: &str) -> Message {
    Message { id, payload: payload.to_vec(), sender: sender.to_string() }
}

#[test]
fn encode_message_exact_bytes() {
    let m = msg(1, &[0xde, 0xad], "ab");
    let encoded = encode_message(&m).unwrap();
    let expected: Vec<u8> = vec![
        0, 0, 0, 0, 0, 0, 0, 1, // id, big-endian
        0, 0, 0, 2, // sender length
        b'a', b'b', // sender
        0, 0, 0, 2, // payload length
        0xde, 0xad, // payload
    ];
    assert_eq!(encoded, expected);
}

#[test]
fn message_round_trip() {
    let m = msg(42, b"the payload", "127.0.0.1:9000");
    let encoded = encode_message(&m).unwrap();
    let decoded = decode_message(&encoded).unwrap();
    assert_eq!(decoded, m);
}

#[test]
fn message_round_trip_multibyte_sender() {
    let m = msg(7, &[], "p\u{e9}er \u{2764}");
    let encoded = encode_message(&m).unwrap();
    let decoded = decode_message(&encoded).unwrap();
    assert_eq!(decoded, m);
}

#[test]
fn message_round_trip_empty_payload() {
    let m = msg(0, &[], "");
    let encoded = encode_message(&m).unwrap();
    assert_eq!(encoded.len(), 16);
    let decoded = decode_message(&encoded).unwrap();
    assert_eq!(decoded, m);
}

#[test]
fn decode_rejects_empty_and_truncated() {
    assert!(decode_message(&Vec::new()).is_none());
    let m = msg(3, b"xyz", "s");
    let encoded = encode_message(&m).unwrap();
    for cut in 0..encoded.len() {
        let truncated: Vec<u8> = encoded[..cut].to_vec();
        assert!(decode_message(&truncated).is_none());
    }
}

#[test]
fn decode_rejects_trailing_garbage() {
    let m = msg(3, b"xyz", "s");
    let mut encoded = encode_message(&m).unwrap();
    encoded.push(0);
    assert!(decode_message(&encoded).is_none());
}

#[test]
fn decode_rejects_invalid_utf8_sender() {
    // id 0, sender length 1 with byte 0xff, payload length 0
    let bytes: Vec<u8> = vec![0, 0, 0, 0, 0, 0, 0, 0, 0, 0, 0, 1, 0xff, 0, 0, 0, 0];
    assert!(decode_message(&bytes).is_none());
}

#[test]
fn frame_exact_bytes() {
    let framed = encode_frame(&vec![1, 2, 3]).unwrap();
    assert_eq!(framed, vec![0, 0, 0, 3, 1, 2, 3]);
}

#[test]
fn frame_round_trip() {
    let framed = encode_frame(&vec![9, 8, 7]).unwrap();
    let mut decoder = FrameDecoder::new();
    decoder.feed(&framed);
    assert_eq!(decoder.next_frame().unwrap(), vec![9, 8, 7]);
    assert!(decoder.next_frame().is_none());
}

#[test]
fn frame_decoder_buffers_partial_reads() {
    let framed = encode_frame(&vec![1, 2, 3]).unwrap();
    let mut decoder = FrameDecoder::new();
    decoder.feed(&framed[..3].to_vec());
    assert!(decoder.next_frame().is_none());
    decoder.feed(&framed[3..6].to_vec());
    assert!(decoder.next_frame().is_none());
    decoder.feed(&framed[6..].to_vec());
    assert_eq!(decoder.next_frame().unwrap(), vec![1, 2, 3]);
    assert!(decoder.next_frame().is_none());
}

#[test]
fn frame_decoder_keeps_order() {
    let f1 = encode_frame(&vec![1]).unwrap();
    let f2 = encode_frame(&vec![2, 2]).unwrap();
    let mut wire = f1;
    wire.extend_from_slice(&f2);
    let mut decoder = FrameDecoder::new();
    decoder.feed(&wire);
    assert_eq!(decoder.next_frame().unwrap(), vec![1]);
    assert_eq!(decoder.next_frame().unwrap(), vec![2, 2]);
    assert!(decoder.next_frame().is_none());
}

#[test]
fn empty_frame_is_carried() {
    let framed = encode_frame(&Vec::new()).unwrap();
    assert_eq!(framed, vec![0, 0, 0, 0]);
    let mut decoder = FrameDecoder::new();
    decoder.feed(&framed);
    assert_eq!(decoder.next_frame().unwrap(), Vec::<u8>::new());
}
