pub mod tag;
pub mod transmit;

use vstd::prelude::*;

use crate::{Command, CommandView};

verus! {

/// One stage of a connection's processing pipeline.
///
/// A layer owns a command type: `handle_cmd` turns such a command into
/// frame bytes. `handle_outgoing_frame` wraps bytes produced by an inner
/// layer before they go out. `handle_incoming_frame` inspects, and may
/// unwrap, a received frame, and may report one command to the manager.
///
/// Every operation is pinned to the layer's spec functions, so that a
/// controller built from layers can state exactly how bytes and commands
/// flow through the pipeline.
pub trait Layer: Sized {
    /// The commands this layer owns.
    type Command;

    /// The layer's state after initialization.
    spec fn spec_initial() -> Self;

    /// The bytes `handle_cmd` produces.
    spec fn spec_cmd_bytes(pre: Self, cmd: Self::Command) -> Option<Seq<u8>>;

    /// The layer's state after `handle_cmd`.
    spec fn spec_cmd_state(pre: Self, cmd: Self::Command) -> Self;

    /// What `handle_outgoing_frame` turns an outgoing frame into.
    spec fn spec_wrap(pre: Self, frame: Seq<u8>) -> Seq<u8>;

    /// The layer's state after `handle_outgoing_frame`.
    spec fn spec_wrap_state(pre: Self, frame: Seq<u8>) -> Self;

    /// What `handle_incoming_frame` turns an incoming frame into.
    spec fn spec_unwrap(pre: Self, frame: Seq<u8>) -> Seq<u8>;

    /// The layer's state after `handle_incoming_frame`.
    spec fn spec_unwrap_state(pre: Self, frame: Seq<u8>) -> Self;

    /// The command `handle_incoming_frame` reports to the manager, if any.
    spec fn spec_unwrap_cmd(pre: Self, frame: Seq<u8>) -> Option<CommandView>;

    /// Initializes the layer.
    ///
    /// The default pipeline performs no in-band handshake, so
    /// initialization consumes nothing from the transport.
    fn initialize() -> (r: Self)
        ensures
            r == Self::spec_initial(),
    ;

    /// Handles a command owned by this layer, possibly producing frame
    /// bytes to be wrapped by the layers above and sent.
    fn handle_cmd(&mut self, command: Self::Command) -> (r: Option<Vec<u8>>)
        ensures
            *final(self) == Self::spec_cmd_state(*old(self), command),
            r is Some <==> Self::spec_cmd_bytes(*old(self), command) is Some,
            (r matches Some(b) ==> Self::spec_cmd_bytes(*old(self), command) == Some(b@)),
    ;

    /// Wraps an outgoing frame produced by an inner layer.
    fn handle_outgoing_frame(&mut self, frame: &mut Vec<u8>)
        ensures
            *final(self) == Self::spec_wrap_state(*old(self), old(frame)@),
            final(frame)@ == Self::spec_wrap(*old(self), old(frame)@),
    ;

    /// Inspects an incoming frame, possibly unwrapping it, and may report
    /// one command to the manager.
    fn handle_incoming_frame(&mut self, frame: &mut Vec<u8>) -> (r: Option<Command>)
        ensures
            *final(self) == Self::spec_unwrap_state(*old(self), old(frame)@),
            final(frame)@ == Self::spec_unwrap(*old(self), old(frame)@),
            r is Some <==> Self::spec_unwrap_cmd(*old(self), old(frame)@) is Some,
            (r matches Some(c) ==> Self::spec_unwrap_cmd(*old(self), old(frame)@) == Some(c@)),
    ;
}

} // verus!
