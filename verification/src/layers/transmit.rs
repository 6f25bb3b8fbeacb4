//! The transmit layer: encodes and decodes whole messages.

use vstd::prelude::*;

use crate::api::{message_wf, Message, MessageView};
use crate::codec::{decode_message, encode_message, encoded_message};
use crate::layers::Layer;
use crate::{Command, CommandView};

verus! {

/// Whether a frame is the encoding of some well-formed message.
pub open spec fn decodable(frame: Seq<u8>) -> bool {
    exists|mv: MessageView| message_wf(mv) && frame == encoded_message(mv)
}

/// The message a decodable frame encodes.
pub open spec fn decoded_of(frame: Seq<u8>) -> MessageView
    recommends
        decodable(frame),
{
    choose|mv: MessageView| message_wf(mv) && frame == encoded_message(mv)
}

/// A layer transmitting and receiving whole messages: commands are encoded
/// into one frame each, and every incoming frame that decodes as a message
/// is reported to the manager. It performs no handshake, wraps nothing and
/// leaves incoming frames unchanged.
pub struct Transmit;

/// The commands owned by the transmit layer.
pub enum Cmd {
    /// Encode and send a message.
    SendMessage(Message),
}

impl Layer for Transmit {
    type Command = Cmd;

    open spec fn spec_initial() -> Self {
        Transmit
    }

    open spec fn spec_cmd_bytes(pre: Self, cmd: Cmd) -> Option<Seq<u8>> {
        match cmd {
            Cmd::SendMessage(m) => if message_wf(m@) {
                Some(encoded_message(m@))
            } else {
                None
            },
        }
    }

    open spec fn spec_cmd_state(pre: Self, cmd: Cmd) -> Self {
        pre
    }

    open spec fn spec_wrap(pre: Self, frame: Seq<u8>) -> Seq<u8> {
        frame
    }

    open spec fn spec_wrap_state(pre: Self, frame: Seq<u8>) -> Self {
        pre
    }

    open spec fn spec_unwrap(pre: Self, frame: Seq<u8>) -> Seq<u8> {
        frame
    }

    open spec fn spec_unwrap_state(pre: Self, frame: Seq<u8>) -> Self {
        pre
    }

    open spec fn spec_unwrap_cmd(pre: Self, frame: Seq<u8>) -> Option<CommandView> {
        if decodable(frame) {
            Some(
                CommandView::Received { addr: Seq::empty(), message: decoded_of(frame) },
            )
        } else {
            None
        }
    }

    fn initialize() -> (r: Self) {
        Transmit
    }

    fn handle_cmd(&mut self, command: Cmd) -> (r: Option<Vec<u8>>) {
        match command {
            Cmd::SendMessage(message) => encode_message(&message),
        }
    }

    fn handle_outgoing_frame(&mut self, frame: &mut Vec<u8>) {
    }

    fn handle_incoming_frame(&mut self, frame: &mut Vec<u8>) -> (r: Option<Command>) {
        match decode_message(frame) {
            Some(message) => {
                proof {
                    let mv = message@;
                    assert(decodable(frame@));
                    let picked = decoded_of(frame@);
                    assert(message_wf(picked) && frame@ == encoded_message(picked));
                    assert(picked == mv);
                }
                let r = Command::Received { addr: String::new(), message };
                proof {
                    assert(r@ =~= CommandView::Received {
                        addr: Seq::empty(),
                        message: decoded_of(frame@),
                    });
                }
                Some(r)
            },
            None => {
                proof {
                    if decodable(frame@) {
                        let picked = decoded_of(frame@);
                        assert(message_wf(picked) && frame@ == encoded_message(picked));
                    }
                }
                None
            },
        }
    }
}

} // verus!
