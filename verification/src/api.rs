use vstd::prelude::*;
use vstd::utf8::encode_utf8;

verus! {

/// A message carried by the transmit layer: an identifier assigned by the
/// connection manager, the sender's local address, and an opaque payload.
#[derive(Clone, Debug, PartialEq, Eq)]
pub struct Message {
    /// The unique id of the message.
    pub id: u64,
    /// The payload.
    pub payload: Vec<u8>,
    /// The sender's local address.
    pub sender: String,
}

/// The mathematical content of a [`Message`].
#[verifier::ext_equal]
pub struct MessageView {
    /// The unique id of the message.
    pub id: u64,
    /// The payload bytes.
    pub payload: Seq<u8>,
    /// The characters of the sender's local address.
    pub sender: Seq<char>,
}

impl View for Message {
    type V = MessageView;

    open spec fn view(&self) -> MessageView {
        MessageView { id: self.id, payload: self.payload@, sender: self.sender@ }
    }
}

/// Whether a message fits the wire format: the two length fields of its
/// encoding are 32 bits wide.
pub open spec fn message_wf(m: MessageView) -> bool {
    encode_utf8(m.sender).len() <= u32::MAX && m.payload.len() <= u32::MAX
}

} // verus!
