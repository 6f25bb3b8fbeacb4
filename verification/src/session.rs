//! The per-peer session: one controller and one frame decoder, driven by
//! the host's session task.
//!
//! The session task owns the socket and races three event sources:
//! cancellation, commands from the manager, and bytes read from the
//! socket. The decisions behind those arms live here: a command becomes
//! wire bytes through [`Session::on_command`]; read bytes become manager
//! commands through [`Session::on_bytes`]; a write failure or the end of
//! the stream becomes a disconnect notice to the manager.

use vstd::prelude::*;

use crate::controller::Controller;
use crate::text::{clone_bytes, clone_string};
use crate::frame::{
    encoded_frame, first_frame, frame_ready, rest_after_frame, FrameDecoder,
};
use crate::{Command, CommandView};

verus! {

/// A command as the session forwards it to the manager: a decoded message
/// is attributed to the session's peer, anything else passes unchanged.
pub open spec fn attributed(c: CommandView, peer: Seq<char>) -> CommandView {
    match c {
        CommandView::Received { addr, message } => CommandView::Received { addr: peer, message },
        _ => c,
    }
}

/// Every command of `cs`, attributed to `peer`.
pub open spec fn attributed_all(cs: Seq<CommandView>, peer: Seq<char>) -> Seq<CommandView> {
    cs.map_values(|c: CommandView| attributed(c, peer))
}

/// What processing every complete frame of `buf` does to a controller: the
/// controller afterwards, the bytes left in the buffer, and the commands
/// the layers reported, in order.
pub open spec fn drained<C: Controller>(c: C, buf: Seq<u8>) -> (C, Seq<u8>, Seq<CommandView>)
    decreases buf.len(),
{
    if frame_ready(buf) {
        let f = first_frame(buf);
        let rest = rest_after_frame(buf);
        let c1 = C::spec_frame_state(c, f);
        let tail = drained(c1, rest);
        (tail.0, tail.1, C::spec_frame_cmds(c, f) + tail.2)
    } else {
        (c, buf, Seq::empty())
    }
}

/// One live connection: the peer's address, the pipeline, and the framing
/// decoder for the bytes read from the socket.
pub struct Session<C: Controller> {
    /// The address of the remote peer.
    pub peer: String,
    /// The pipeline processing commands and frames.
    pub controller: C,
    /// Buffers the bytes read from the socket.
    pub decoder: FrameDecoder,
}

impl<C: Controller> Session<C> {
    /// Starts a session for the peer at `peer`: a freshly initialized
    /// pipeline and an empty read buffer.
    pub fn new(peer: String) -> (r: Self)
        ensures
            r.peer@ == peer@,
            r.controller == C::spec_initial(),
            r.decoder.buf@ == Seq::<u8>::empty(),
    {
        Session { peer, controller: C::initialize(), decoder: FrameDecoder::new() }
    }

    /// Processes a command from the manager; the bytes that come back, if
    /// any, are one complete frame for the socket. Bytes too long for the
    /// frame length prefix are not sent.
    pub fn on_command(&mut self, cmd: C::Command) -> (r: Option<Vec<u8>>)
        ensures
            final(self).peer == old(self).peer,
            final(self).decoder == old(self).decoder,
            final(self).controller == C::spec_cmd_state(old(self).controller, cmd),
            match C::spec_cmd_bytes(old(self).controller, cmd) {
                Some(b) => if b.len() <= u32::MAX {
                    r matches Some(f) && f@ == encoded_frame(b)
                } else {
                    r is None
                },
                None => r is None,
            },
    {
        match self.controller.process_cmd(cmd) {
            Some(b) => crate::frame::encode_frame(&b),
            None => None,
        }
    }

    /// Processes bytes read from the socket: buffers them, runs every
    /// complete frame through the pipeline, and returns the commands to
    /// forward to the manager, attributed to this session's peer, in the
    /// order the layers reported them.
    pub fn on_bytes(&mut self, data: &Vec<u8>) -> (r: Vec<Command>)
        ensures
            final(self).peer == old(self).peer,
            final(self).controller == drained(
                old(self).controller,
                old(self).decoder.buf@ + data@,
            ).0,
            final(self).decoder.buf@ == drained(
                old(self).controller,
                old(self).decoder.buf@ + data@,
            ).1,
            crate::command_views(r@) == attributed_all(
                drained(old(self).controller, old(self).decoder.buf@ + data@).2,
                old(self).peer@,
            ),
    {
        self.decoder.feed(data);
        let ghost start_ctrl = self.controller;
        let ghost start_buf = self.decoder.buf@;
        let ghost full = drained(start_ctrl, start_buf);
        let mut out: Vec<Command> = Vec::new();
        let ghost mut done: Seq<CommandView> = Seq::empty();
        proof {
            assert(full.2 =~= done + drained(self.controller, self.decoder.buf@).2);
            assert(crate::command_views(out@) =~= attributed_all(done, self.peer@));
        }
        while self.decoder.has_frame()
            invariant
                self.peer == old(self).peer,
                drained(self.controller, self.decoder.buf@).0 == full.0,
                drained(self.controller, self.decoder.buf@).1 == full.1,
                full.2 == done + drained(self.controller, self.decoder.buf@).2,
                crate::command_views(out@) == attributed_all(done, self.peer@),
            decreases self.decoder.buf@.len(),
        {
            let ghost ctrl_pre = self.controller;
            let ghost buf_pre = self.decoder.buf@;
            let maybe_frame = self.decoder.next_frame();
            if let Some(mut frame) = maybe_frame {
                let cmds = self.controller.process_incoming_frame(&mut frame);
                proof {
                    assert(drained(ctrl_pre, buf_pre).2 =~= C::spec_frame_cmds(
                        ctrl_pre,
                        first_frame(buf_pre),
                    ) + drained(self.controller, self.decoder.buf@).2);
                }
                let ghost reported = crate::command_views(cmds@);
                let mut k: usize = 0;
                while k < cmds.len()
                    invariant
                        k <= cmds@.len(),
                        reported == crate::command_views(cmds@),
                        self.peer == old(self).peer,
                        crate::command_views(out@) == attributed_all(
                            done + reported.take(k as int),
                            self.peer@,
                        ),
                    decreases cmds@.len() - k,
                {
                    let ghost out_pre = out@;
                    let c = attribute_to(&cmds[k], &self.peer);
                    out.push(c);
                    k = k + 1;
                    proof {
                        assert(crate::command_views(out@) =~= crate::command_views(
                            out_pre,
                        ).push(attributed(reported[k - 1], self.peer@)));
                        assert((done + reported.take(k as int)) =~= (done + reported.take(
                            k - 1,
                        )).push(reported[k - 1]));
                        assert(attributed_all(
                            (done + reported.take(k - 1)).push(reported[k - 1]),
                            self.peer@,
                        ) =~= attributed_all(done + reported.take(k - 1), self.peer@).push(
                            attributed(reported[k - 1], self.peer@),
                        ));
                    }
                }
                proof {
                    done = done + reported;
                    assert(reported.take(reported.len() as int) =~= reported);
                    assert(full.2 =~= done + drained(self.controller, self.decoder.buf@).2);
                }
            }
        }
        proof {
            assert(drained(self.controller, self.decoder.buf@).2 =~= Seq::<CommandView>::empty());
            assert(full.2 =~= done);
        }
        out
    }

    /// The notice the session sends the manager when a socket write
    /// failed: ask to be disconnected.
    pub fn on_write_error(&self) -> (r: Command)
        ensures
            r@ == (CommandView::Disconnect { addr: self.peer@ }),
    {
        Command::Disconnect { addr: clone_string(&self.peer) }
    }

    /// The notice the session sends the manager when the peer closed the
    /// stream or reading failed: ask to be disconnected.
    pub fn on_transport_closed(&self) -> (r: Command)
        ensures
            r@ == (CommandView::Disconnect { addr: self.peer@ }),
    {
        Command::Disconnect { addr: clone_string(&self.peer) }
    }
}

/// Law: framing round trip. A message handed to the default pipeline goes
/// out as one frame holding exactly its encoding; a receiver of that frame
/// with the same pipeline reports exactly the message back, ahead of
/// whatever follows on the wire; and the receiving manager surfaces it as
/// received with the very same payload.
pub proof fn lemma_framing_round_trip(
    sender: crate::manager::Unsecure,
    receiver: crate::manager::Unsecure,
    msg: crate::api::Message,
    rest: Seq<u8>,
    rm: crate::manager::ManagerModel,
    from: Seq<char>,
    now: u64,
)
    requires
        crate::api::message_wf(msg@),
        crate::codec::encoded_message(msg@).len() <= u32::MAX,
    ensures
        <crate::manager::Unsecure as Controller>::spec_cmd_bytes(
            sender,
            crate::layers::transmit::Cmd::SendMessage(msg),
        ) == Some(crate::codec::encoded_message(msg@)),
        drained::<crate::manager::Unsecure>(
            receiver,
            encoded_frame(crate::codec::encoded_message(msg@)) + rest,
        ).2 == seq![CommandView::Received { addr: Seq::empty(), message: msg@ }]
            + drained::<crate::manager::Unsecure>(receiver, rest).2,
        crate::manager::emitted_events(
            crate::manager::manager_step(
                rm,
                crate::manager::InputV::Cmd {
                    cmd: attributed(
                        CommandView::Received { addr: Seq::empty(), message: msg@ },
                        from,
                    ),
                    now,
                },
            ).1,
        ) == seq![
            crate::EventView::MessageReceived {
                peer: from,
                message_id: msg@.id,
                payload: msg@.payload,
                timestamp: now,
            },
        ],
{
    let enc = crate::codec::encoded_message(msg@);
    crate::frame::lemma_frame_roundtrip(enc, rest);
    let wire = encoded_frame(enc) + rest;
    assert(crate::layers::transmit::decodable(enc));
    let picked = crate::layers::transmit::decoded_of(enc);
    assert(crate::api::message_wf(picked) && enc == crate::codec::encoded_message(picked));
    crate::codec::lemma_encoded_message_injective(picked, msg@);
    assert(<crate::manager::Unsecure as Controller>::spec_frame_cmds(receiver, enc)
        =~= seq![CommandView::Received { addr: Seq::empty(), message: msg@ }]);
    assert(<crate::manager::Unsecure as Controller>::spec_frame_state(receiver, enc) == receiver);
    assert(drained::<crate::manager::Unsecure>(receiver, wire).2 =~= seq![
        CommandView::Received { addr: Seq::empty(), message: msg@ },
    ] + drained::<crate::manager::Unsecure>(receiver, rest).2);
    crate::manager::lemma_emitted_single(
        crate::EventView::MessageReceived {
            peer: from,
            message_id: msg@.id,
            payload: msg@.payload,
            timestamp: now,
        },
    );
}

/// Law: ordering within a session. Two messages framed back to back are
/// reported by the receiving pipeline in exactly the order they were
/// framed.
pub proof fn lemma_session_ordering(
    receiver: crate::manager::Unsecure,
    m1: crate::api::MessageView,
    m2: crate::api::MessageView,
)
    requires
        crate::api::message_wf(m1),
        crate::api::message_wf(m2),
        crate::codec::encoded_message(m1).len() <= u32::MAX,
        crate::codec::encoded_message(m2).len() <= u32::MAX,
    ensures
        drained::<crate::manager::Unsecure>(
            receiver,
            encoded_frame(crate::codec::encoded_message(m1)) + encoded_frame(
                crate::codec::encoded_message(m2),
            ),
        ).2 == seq![
            CommandView::Received { addr: Seq::empty(), message: m1 },
            CommandView::Received { addr: Seq::empty(), message: m2 },
        ],
{
    let e1 = crate::codec::encoded_message(m1);
    let e2 = crate::codec::encoded_message(m2);
    let wire = encoded_frame(e1) + encoded_frame(e2);
    assert(wire =~= encoded_frame(e1) + (encoded_frame(e2) + Seq::<u8>::empty()));
    crate::frame::lemma_frame_roundtrip(e1, encoded_frame(e2) + Seq::<u8>::empty());
    crate::frame::lemma_frame_roundtrip(e2, Seq::<u8>::empty());
    assert(crate::layers::transmit::decodable(e1));
    assert(crate::layers::transmit::decodable(e2));
    crate::codec::lemma_encoded_message_injective(
        crate::layers::transmit::decoded_of(e1),
        m1,
    );
    crate::codec::lemma_encoded_message_injective(
        crate::layers::transmit::decoded_of(e2),
        m2,
    );
    let after1 = rest_after_frame(wire);
    assert(after1 == encoded_frame(e2) + Seq::<u8>::empty());
    assert(first_frame(after1) == e2);
    let after2 = rest_after_frame(after1);
    assert(after2 =~= Seq::<u8>::empty());
    assert(!frame_ready(after2));
    assert(<crate::manager::Unsecure as Controller>::spec_frame_cmds(receiver, e1)
        =~= seq![CommandView::Received { addr: Seq::empty(), message: m1 }]);
    assert(<crate::manager::Unsecure as Controller>::spec_frame_cmds(receiver, e2)
        =~= seq![CommandView::Received { addr: Seq::empty(), message: m2 }]);
    assert(<crate::manager::Unsecure as Controller>::spec_frame_state(receiver, e1) == receiver);
    assert(<crate::manager::Unsecure as Controller>::spec_frame_state(receiver, e2) == receiver);
    assert(drained::<crate::manager::Unsecure>(receiver, after2).2 =~= Seq::<CommandView>::empty());
    assert(drained::<crate::manager::Unsecure>(receiver, after1).2 =~= seq![
        CommandView::Received { addr: Seq::empty(), message: m2 },
    ]);
    assert(drained::<crate::manager::Unsecure>(receiver, wire).2 =~= seq![
        CommandView::Received { addr: Seq::empty(), message: m1 },
        CommandView::Received { addr: Seq::empty(), message: m2 },
    ]);
}

/// A copy of a command with a decoded message attributed to `peer`.
fn attribute_to(c: &Command, peer: &String) -> (r: Command)
    ensures
        r@ == attributed(c@, peer@),
{
    match c {
        Command::Received { addr: _, message } => Command::Received {
            addr: clone_string(peer),
            message: clone_message(message),
        },
        Command::Connect { addr } => Command::Connect { addr: clone_string(addr) },
        Command::Disconnect { addr } => Command::Disconnect { addr: clone_string(addr) },
        Command::SendMessage { addr, data } => Command::SendMessage {
            addr: clone_string(addr),
            data: clone_bytes(data),
        },
    }
}

/// A copy of a message with the same content.
fn clone_message(m: &crate::api::Message) -> (r: crate::api::Message)
    ensures
        r@ == m@,
{
    crate::api::Message {
        id: m.id,
        payload: clone_bytes(&m.payload),
        sender: clone_string(&m.sender),
    }
}

} // verus!
