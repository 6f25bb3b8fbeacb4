//! The controller: an ordered composition of layers forming a session's
//! pipeline.
//!
//! In a stack `(L1, .., Ln)`, `L1` is the outermost layer (closest to the
//! wire) and `Ln` the innermost. A command is routed to the layer that owns
//! its arm of the stack's command type; bytes the owner produces are
//! wrapped by the layers in front of it, outwards. An incoming frame is
//! shown to every layer, the innermost first, and the commands the layers
//! report are collected in that order.

use vstd::prelude::*;

use crate::layers::Layer;
use crate::{Command, CommandView};

verus! {

/// A controller processes commands from the manager into wire bytes and
/// incoming frames into commands for the manager.
///
/// Every operation is pinned to the controller's spec functions; the stack
/// impls define those by composing the spec functions of their layers, so
/// the routing and the wrapping order are part of the contracts.
pub trait Controller: Sized {
    /// The commands this controller accepts: one arm per layer.
    type Command;

    /// The controller's state after initialization.
    spec fn spec_initial() -> Self;

    /// The bytes `process_cmd` produces, fully wrapped.
    spec fn spec_cmd_bytes(pre: Self, cmd: Self::Command) -> Option<Seq<u8>>;

    /// The controller's state after `process_cmd`.
    spec fn spec_cmd_state(pre: Self, cmd: Self::Command) -> Self;

    /// The commands the layers report for an incoming frame, innermost
    /// layer first.
    spec fn spec_frame_cmds(pre: Self, frame: Seq<u8>) -> Seq<CommandView>;

    /// What is left of an incoming frame after every layer has seen it.
    spec fn spec_frame_bytes(pre: Self, frame: Seq<u8>) -> Seq<u8>;

    /// The controller's state after `process_incoming_frame`.
    spec fn spec_frame_state(pre: Self, frame: Seq<u8>) -> Self;

    /// Initializes every layer, the outermost first.
    fn initialize() -> (r: Self)
        ensures
            r == Self::spec_initial(),
    ;

    /// Routes a command to the layer that owns it and wraps the bytes it
    /// produces through the layers in front of it, outwards.
    fn process_cmd(&mut self, cmd: Self::Command) -> (r: Option<Vec<u8>>)
        ensures
            *final(self) == Self::spec_cmd_state(*old(self), cmd),
            r is Some <==> Self::spec_cmd_bytes(*old(self), cmd) is Some,
            (r matches Some(b) ==> Self::spec_cmd_bytes(*old(self), cmd) == Some(b@)),
    ;

    /// Shows an incoming frame to every layer, the innermost first, and
    /// collects the commands they report, in that order.
    fn process_incoming_frame(&mut self, frame: &mut Vec<u8>) -> (r: Vec<Command>)
        ensures
            *final(self) == Self::spec_frame_state(*old(self), old(frame)@),
            final(frame)@ == Self::spec_frame_bytes(*old(self), old(frame)@),
            crate::command_views(r@) == Self::spec_frame_cmds(*old(self), old(frame)@),
    ;
}

/// The commands of a two-layer stack.
pub enum Cmd2<A, B> {
    /// A command owned by the outermost layer.
    First(A),
    /// A command owned by the innermost layer.
    Second(B),
}

/// The commands of a three-layer stack.
pub enum Cmd3<A, B, C> {
    /// A command owned by the outermost layer.
    First(A),
    /// A command owned by the middle layer.
    Second(B),
    /// A command owned by the innermost layer.
    Third(C),
}

/// A pipeline of one layer.
pub struct Stack1<L1> {
    /// The only layer.
    pub l1: L1,
}

/// A pipeline of two layers; `l1` is the outermost.
pub struct Stack2<L1, L2> {
    /// The outermost layer.
    pub l1: L1,
    /// The innermost layer.
    pub l2: L2,
}

/// A pipeline of three layers; `l1` is the outermost.
pub struct Stack3<L1, L2, L3> {
    /// The outermost layer.
    pub l1: L1,
    /// The middle layer.
    pub l2: L2,
    /// The innermost layer.
    pub l3: L3,
}

/// The commands one layer reports, as a sequence.
pub open spec fn opt_cmds(c: Option<CommandView>) -> Seq<CommandView> {
    match c {
        Some(c) => seq![c],
        None => Seq::empty(),
    }
}

impl<L1: Layer> Controller for Stack1<L1> {
    type Command = L1::Command;

    open spec fn spec_initial() -> Self {
        Stack1 { l1: L1::spec_initial() }
    }

    open spec fn spec_cmd_bytes(pre: Self, cmd: L1::Command) -> Option<Seq<u8>> {
        L1::spec_cmd_bytes(pre.l1, cmd)
    }

    open spec fn spec_cmd_state(pre: Self, cmd: L1::Command) -> Self {
        Stack1 { l1: L1::spec_cmd_state(pre.l1, cmd) }
    }

    open spec fn spec_frame_cmds(pre: Self, frame: Seq<u8>) -> Seq<CommandView> {
        opt_cmds(L1::spec_unwrap_cmd(pre.l1, frame))
    }

    open spec fn spec_frame_bytes(pre: Self, frame: Seq<u8>) -> Seq<u8> {
        L1::spec_unwrap(pre.l1, frame)
    }

    open spec fn spec_frame_state(pre: Self, frame: Seq<u8>) -> Self {
        Stack1 { l1: L1::spec_unwrap_state(pre.l1, frame) }
    }

    fn initialize() -> (r: Self) {
        Stack1 { l1: L1::initialize() }
    }

    fn process_cmd(&mut self, cmd: L1::Command) -> (r: Option<Vec<u8>>) {
        self.l1.handle_cmd(cmd)
    }

    fn process_incoming_frame(&mut self, frame: &mut Vec<u8>) -> (r: Vec<Command>) {
        let mut cmds: Vec<Command> = Vec::new();
        if let Some(c) = self.l1.handle_incoming_frame(frame) {
            cmds.push(c);
        }
        proof {
            assert(crate::command_views(cmds@) =~= Self::spec_frame_cmds(
                *old(self),
                old(frame)@,
            ));
        }
        cmds
    }
}

impl<L1: Layer, L2: Layer> Controller for Stack2<L1, L2> {
    type Command = Cmd2<L1::Command, L2::Command>;

    open spec fn spec_initial() -> Self {
        Stack2 { l1: L1::spec_initial(), l2: L2::spec_initial() }
    }

    open spec fn spec_cmd_bytes(pre: Self, cmd: Self::Command) -> Option<Seq<u8>> {
        match cmd {
            Cmd2::First(c) => L1::spec_cmd_bytes(pre.l1, c),
            Cmd2::Second(c) => match L2::spec_cmd_bytes(pre.l2, c) {
                Some(b) => Some(L1::spec_wrap(pre.l1, b)),
                None => None,
            },
        }
    }

    open spec fn spec_cmd_state(pre: Self, cmd: Self::Command) -> Self {
        match cmd {
            Cmd2::First(c) => Stack2 { l1: L1::spec_cmd_state(pre.l1, c), l2: pre.l2 },
            Cmd2::Second(c) => match L2::spec_cmd_bytes(pre.l2, c) {
                Some(b) => Stack2 {
                    l1: L1::spec_wrap_state(pre.l1, b),
                    l2: L2::spec_cmd_state(pre.l2, c),
                },
                None => Stack2 { l1: pre.l1, l2: L2::spec_cmd_state(pre.l2, c) },
            },
        }
    }

    open spec fn spec_frame_cmds(pre: Self, frame: Seq<u8>) -> Seq<CommandView> {
        opt_cmds(L2::spec_unwrap_cmd(pre.l2, frame)) + opt_cmds(
            L1::spec_unwrap_cmd(pre.l1, L2::spec_unwrap(pre.l2, frame)),
        )
    }

    open spec fn spec_frame_bytes(pre: Self, frame: Seq<u8>) -> Seq<u8> {
        L1::spec_unwrap(pre.l1, L2::spec_unwrap(pre.l2, frame))
    }

    open spec fn spec_frame_state(pre: Self, frame: Seq<u8>) -> Self {
        Stack2 {
            l1: L1::spec_unwrap_state(pre.l1, L2::spec_unwrap(pre.l2, frame)),
            l2: L2::spec_unwrap_state(pre.l2, frame),
        }
    }

    fn initialize() -> (r: Self) {
        Stack2 { l1: L1::initialize(), l2: L2::initialize() }
    }

    fn process_cmd(&mut self, cmd: Self::Command) -> (r: Option<Vec<u8>>) {
        match cmd {
            Cmd2::First(c) => self.l1.handle_cmd(c),
            Cmd2::Second(c) => {
                let bytes = self.l2.handle_cmd(c);
                match bytes {
                    Some(mut b) => {
                        self.l1.handle_outgoing_frame(&mut b);
                        Some(b)
                    },
                    None => None,
                }
            },
        }
    }

    fn process_incoming_frame(&mut self, frame: &mut Vec<u8>) -> (r: Vec<Command>) {
        let mut cmds: Vec<Command> = Vec::new();
        if let Some(c) = self.l2.handle_incoming_frame(frame) {
            cmds.push(c);
        }
        if let Some(c) = self.l1.handle_incoming_frame(frame) {
            cmds.push(c);
        }
        proof {
            assert(crate::command_views(cmds@) =~= Self::spec_frame_cmds(
                *old(self),
                old(frame)@,
            ));
        }
        cmds
    }
}

impl<L1: Layer, L2: Layer, L3: Layer> Controller for Stack3<L1, L2, L3> {
    type Command = Cmd3<L1::Command, L2::Command, L3::Command>;

    open spec fn spec_initial() -> Self {
        Stack3 { l1: L1::spec_initial(), l2: L2::spec_initial(), l3: L3::spec_initial() }
    }

    open spec fn spec_cmd_bytes(pre: Self, cmd: Self::Command) -> Option<Seq<u8>> {
        match cmd {
            Cmd3::First(c) => L1::spec_cmd_bytes(pre.l1, c),
            Cmd3::Second(c) => match L2::spec_cmd_bytes(pre.l2, c) {
                Some(b) => Some(L1::spec_wrap(pre.l1, b)),
                None => None,
            },
            Cmd3::Third(c) => match L3::spec_cmd_bytes(pre.l3, c) {
                Some(b) => Some(L1::spec_wrap(pre.l1, L2::spec_wrap(pre.l2, b))),
                None => None,
            },
        }
    }

    open spec fn spec_cmd_state(pre: Self, cmd: Self::Command) -> Self {
        match cmd {
            Cmd3::First(c) => Stack3 {
                l1: L1::spec_cmd_state(pre.l1, c),
                l2: pre.l2,
                l3: pre.l3,
            },
            Cmd3::Second(c) => match L2::spec_cmd_bytes(pre.l2, c) {
                Some(b) => Stack3 {
                    l1: L1::spec_wrap_state(pre.l1, b),
                    l2: L2::spec_cmd_state(pre.l2, c),
                    l3: pre.l3,
                },
                None => Stack3 { l1: pre.l1, l2: L2::spec_cmd_state(pre.l2, c), l3: pre.l3 },
            },
            Cmd3::Third(c) => match L3::spec_cmd_bytes(pre.l3, c) {
                Some(b) => Stack3 {
                    l1: L1::spec_wrap_state(pre.l1, L2::spec_wrap(pre.l2, b)),
                    l2: L2::spec_wrap_state(pre.l2, b),
                    l3: L3::spec_cmd_state(pre.l3, c),
                },
                None => Stack3 { l1: pre.l1, l2: pre.l2, l3: L3::spec_cmd_state(pre.l3, c) },
            },
        }
    }

    open spec fn spec_frame_cmds(pre: Self, frame: Seq<u8>) -> Seq<CommandView> {
        let f2 = L3::spec_unwrap(pre.l3, frame);
        let f1 = L2::spec_unwrap(pre.l2, f2);
        opt_cmds(L3::spec_unwrap_cmd(pre.l3, frame)) + opt_cmds(
            L2::spec_unwrap_cmd(pre.l2, f2),
        ) + opt_cmds(L1::spec_unwrap_cmd(pre.l1, f1))
    }

    open spec fn spec_frame_bytes(pre: Self, frame: Seq<u8>) -> Seq<u8> {
        L1::spec_unwrap(pre.l1, L2::spec_unwrap(pre.l2, L3::spec_unwrap(pre.l3, frame)))
    }

    open spec fn spec_frame_state(pre: Self, frame: Seq<u8>) -> Self {
        let f2 = L3::spec_unwrap(pre.l3, frame);
        Stack3 {
            l1: L1::spec_unwrap_state(pre.l1, L2::spec_unwrap(pre.l2, f2)),
            l2: L2::spec_unwrap_state(pre.l2, f2),
            l3: L3::spec_unwrap_state(pre.l3, frame),
        }
    }

    fn initialize() -> (r: Self) {
        Stack3 { l1: L1::initialize(), l2: L2::initialize(), l3: L3::initialize() }
    }

    fn process_cmd(&mut self, cmd: Self::Command) -> (r: Option<Vec<u8>>) {
        match cmd {
            Cmd3::First(c) => self.l1.handle_cmd(c),
            Cmd3::Second(c) => {
                let bytes = self.l2.handle_cmd(c);
                match bytes {
                    Some(mut b) => {
                        self.l1.handle_outgoing_frame(&mut b);
                        Some(b)
                    },
                    None => None,
                }
            },
            Cmd3::Third(c) => {
                let bytes = self.l3.handle_cmd(c);
                match bytes {
                    Some(mut b) => {
                        self.l2.handle_outgoing_frame(&mut b);
                        self.l1.handle_outgoing_frame(&mut b);
                        Some(b)
                    },
                    None => None,
                }
            },
        }
    }

    fn process_incoming_frame(&mut self, frame: &mut Vec<u8>) -> (r: Vec<Command>) {
        let mut cmds: Vec<Command> = Vec::new();
        if let Some(c) = self.l3.handle_incoming_frame(frame) {
            cmds.push(c);
        }
        if let Some(c) = self.l2.handle_incoming_frame(frame) {
            cmds.push(c);
        }
        if let Some(c) = self.l1.handle_incoming_frame(frame) {
            cmds.push(c);
        }
        proof {
            assert(crate::command_views(cmds@) =~= Self::spec_frame_cmds(
                *old(self),
                old(frame)@,
            ));
        }
        cmds
    }
}

/// Law: in a three-layer stack a command is routed to exactly the layer
/// that owns its arm; the other layers' states are touched only through
/// outgoing-frame wrapping, and only when bytes were produced. The stack's
/// command type has one arm per layer, so a command no layer owns cannot
/// exist.
pub proof fn lemma_dispatch_uniqueness<L1: Layer, L2: Layer, L3: Layer>(
    s: Stack3<L1, L2, L3>,
    cmd: <Stack3<L1, L2, L3> as Controller>::Command,
)
    ensures
        (cmd matches Cmd3::First(c) ==> Stack3::spec_cmd_bytes(s, cmd) == L1::spec_cmd_bytes(
            s.l1,
            c,
        ) && Stack3::spec_cmd_state(s, cmd).l2 == s.l2 && Stack3::spec_cmd_state(s, cmd).l3
            == s.l3),
        (cmd matches Cmd3::Second(c) ==> Stack3::spec_cmd_state(s, cmd).l3 == s.l3
            && (L2::spec_cmd_bytes(s.l2, c) is None ==> Stack3::spec_cmd_bytes(s, cmd) is None
            && Stack3::spec_cmd_state(s, cmd).l1 == s.l1)),
        (cmd matches Cmd3::Third(c) ==> (L3::spec_cmd_bytes(s.l3, c) is None
            ==> Stack3::spec_cmd_bytes(s, cmd) is None && Stack3::spec_cmd_state(s, cmd).l1
            == s.l1 && Stack3::spec_cmd_state(s, cmd).l2 == s.l2)),
{
}

/// Law: for a three-layer stack and a command owned by the innermost
/// layer, the bytes handed to the wire are the owner's bytes wrapped by
/// the middle layer and then by the outermost layer, in that order.
pub proof fn lemma_outbound_wrap_order<L1: Layer, L2: Layer, L3: Layer>(
    s: Stack3<L1, L2, L3>,
    c: L3::Command,
)
    ensures
        (L3::spec_cmd_bytes(s.l3, c) matches Some(b) ==> Stack3::spec_cmd_bytes(
            s,
            Cmd3::Third(c),
        ) == Some(L1::spec_wrap(s.l1, L2::spec_wrap(s.l2, b)))),
{
}

/// Law: for a three-layer stack, an incoming frame is shown to the
/// innermost layer first and the outermost last, each seeing the frame as
/// the layer before it left it, and the reported commands are collected in
/// that order.
pub proof fn lemma_inbound_unwrap_order<L1: Layer, L2: Layer, L3: Layer>(
    s: Stack3<L1, L2, L3>,
    frame: Seq<u8>,
)
    ensures
        Stack3::spec_frame_cmds(s, frame) == opt_cmds(L3::spec_unwrap_cmd(s.l3, frame))
            + opt_cmds(L2::spec_unwrap_cmd(s.l2, L3::spec_unwrap(s.l3, frame))) + opt_cmds(
            L1::spec_unwrap_cmd(s.l1, L2::spec_unwrap(s.l2, L3::spec_unwrap(s.l3, frame))),
        ),
        Stack3::spec_frame_bytes(s, frame) == L1::spec_unwrap(
            s.l1,
            L2::spec_unwrap(s.l2, L3::spec_unwrap(s.l3, frame)),
        ),
{
}

} // verus!
