//! The connection manager: owns the peer table, decides on every input of
//! the manager task, and says which actions the host must perform.
//!
//! The manager task of the embedding host binds the listener and races
//! cancellation, accepted connections and commands. Each arm's decision is
//! a function here: it updates the peer table and returns the actions to
//! perform (spawn or cancel a session task, attempt a connection, hand a
//! message to a session, surface an event). Every function refines
//! [`manager_step`], the one-step transition of the manager model, over
//! which the conservation laws of the peer table are proved.

use vstd::prelude::*;

use crate::api::{Message, MessageView};
use crate::text::clone_string;
use crate::{Command, CommandView, Event, EventView};

verus! {

/// The default pipeline: the transmit layer alone.
pub type Unsecure = crate::controller::Stack1<crate::layers::transmit::Transmit>;

/// An action the manager asks its host to perform.
#[derive(Debug, PartialEq, Eq)]
pub enum Action {
    /// Spawn the session task for the just-accepted or just-connected
    /// socket of `addr` and keep its handle.
    SpawnSession {
        /// The address of the new session's peer.
        addr: String,
    },
    /// Cancel the session task of `addr` and await its handle.
    CancelSession {
        /// The address of the session to tear down.
        addr: String,
    },
    /// Hand a message to the session of `addr` as a transmit-layer
    /// command.
    ForwardMessage {
        /// The address of the session to hand the message to.
        addr: String,
        /// The message to encode and send.
        message: Message,
    },
    /// Attempt an outbound connection to `addr` and report the outcome
    /// back.
    AttemptConnect {
        /// The address to connect to.
        addr: String,
    },
    /// Surface an event to the host.
    Emit {
        /// The event to surface.
        event: Event,
    },
}

/// The mathematical content of an [`Action`].
#[verifier::ext_equal]
pub enum ActionView {
    /// Spawn the session task for `addr`.
    SpawnSession { addr: Seq<char> },
    /// Cancel the session task of `addr` and await it.
    CancelSession { addr: Seq<char> },
    /// Hand a message to the session of `addr`.
    ForwardMessage { addr: Seq<char>, message: MessageView },
    /// Attempt an outbound connection to `addr`.
    AttemptConnect { addr: Seq<char> },
    /// Surface an event to the host.
    Emit { event: EventView },
}

impl View for Action {
    type V = ActionView;

    open spec fn view(&self) -> ActionView {
        match self {
            Action::SpawnSession { addr } => ActionView::SpawnSession { addr: addr@ },
            Action::CancelSession { addr } => ActionView::CancelSession { addr: addr@ },
            Action::ForwardMessage { addr, message } => ActionView::ForwardMessage {
                addr: addr@,
                message: message@,
            },
            Action::AttemptConnect { addr } => ActionView::AttemptConnect { addr: addr@ },
            Action::Emit { event } => ActionView::Emit { event: event@ },
        }
    }
}

/// The views of the actions in `v`.
pub open spec fn action_views(v: Seq<Action>) -> Seq<ActionView> {
    v.map_values(|a: Action| a@)
}

/// One input of the manager task: what its select loop woke up for.
#[verifier::ext_equal]
pub enum InputV {
    /// The listener accepted a connection from `peer`.
    InboundRequest { peer: Seq<char> },
    /// The host answered the connection request of `peer`.
    InboundDecision { peer: Seq<char>, accepted: bool },
    /// An outbound connection attempt to `addr` finished.
    ConnectResult { addr: Seq<char>, connected: bool },
    /// A command arrived, from the host or from a session; `now` is the
    /// host clock in milliseconds.
    Cmd { cmd: CommandView, now: u64 },
    /// The manager was cancelled.
    Shutdown,
}

/// The manager model: the local address, the peer table and the next
/// message id.
#[verifier::ext_equal]
pub struct ManagerModel {
    /// The local listening address, the sender of outgoing messages.
    pub local: Seq<char>,
    /// The addresses of the live sessions.
    pub peers: Seq<Seq<char>>,
    /// The id the next message handed to a session will carry.
    pub next_id: u64,
}

/// Whether the peer table holds `p`.
pub open spec fn has_peer(peers: Seq<Seq<char>>, p: Seq<char>) -> bool {
    peers.contains(p)
}

/// The peer table with `p` added, unless it is already there.
pub open spec fn insert_peer(peers: Seq<Seq<char>>, p: Seq<char>) -> Seq<Seq<char>> {
    if peers.contains(p) {
        peers
    } else {
        peers.push(p)
    }
}

/// The peer table with the first occurrence of `p` removed.
pub open spec fn remove_peer(peers: Seq<Seq<char>>, p: Seq<char>) -> Seq<Seq<char>>
    decreases peers.len(),
{
    if peers.len() == 0 {
        peers
    } else if peers[0] == p {
        peers.drop_first()
    } else {
        seq![peers[0]] + remove_peer(peers.drop_first(), p)
    }
}

/// Whether a peer table holds no address twice.
pub open spec fn peers_unique(peers: Seq<Seq<char>>) -> bool {
    forall|i: int, j: int| 0 <= i < j < peers.len() ==> peers[i] != peers[j]
}

/// The id after `id`, wrapping at the top.
pub open spec fn next_of(id: u64) -> u64 {
    if id == u64::MAX {
        0
    } else {
        (id + 1) as u64
    }
}

/// What the manager does on one input: the model afterwards and the
/// actions the host performs, in order.
///
/// An accepted inbound connection or a successful outbound one enters the
/// peer table and is announced; a failed outbound attempt is only
/// reported; a rejected inbound one is dropped silently. A disconnect
/// leaves the table, is cancelled and is announced exactly when the peer
/// was in the table. A send to a known peer is handed over under a fresh
/// id and announced as sent; one to an unknown peer only fails. Shutdown
/// empties the table, cancelling every session and announcing nothing:
/// the event stream closes instead.
pub open spec fn manager_step(m: ManagerModel, inp: InputV) -> (ManagerModel, Seq<ActionView>) {
    match inp {
        InputV::InboundRequest { peer } => (
            m,
            seq![ActionView::Emit { event: EventView::ConnectionRequested { peer } }],
        ),
        InputV::InboundDecision { peer, accepted } => if accepted {
            (
                ManagerModel { peers: insert_peer(m.peers, peer), ..m },
                seq![
                    ActionView::SpawnSession { addr: peer },
                    ActionView::Emit { event: EventView::ConnectionEstablished { peer } },
                ],
            )
        } else {
            (m, Seq::empty())
        },
        InputV::ConnectResult { addr, connected } => if connected {
            (
                ManagerModel { peers: insert_peer(m.peers, addr), ..m },
                seq![
                    ActionView::SpawnSession { addr },
                    ActionView::Emit { event: EventView::ConnectionEstablished { peer: addr } },
                ],
            )
        } else {
            (m, seq![ActionView::Emit { event: EventView::ConnectionRejected { peer: addr } }])
        },
        InputV::Cmd { cmd, now } => match cmd {
            CommandView::Connect { addr } => (m, seq![ActionView::AttemptConnect { addr }]),
            CommandView::Disconnect { addr } => if has_peer(m.peers, addr) {
                (
                    ManagerModel { peers: remove_peer(m.peers, addr), ..m },
                    seq![
                        ActionView::CancelSession { addr },
                        ActionView::Emit {
                            event: EventView::ConnectionDisconnected { peer: addr },
                        },
                    ],
                )
            } else {
                (m, Seq::empty())
            },
            CommandView::SendMessage { addr, data } => if has_peer(m.peers, addr) {
                (
                    ManagerModel { next_id: next_of(m.next_id), ..m },
                    seq![
                        ActionView::ForwardMessage {
                            addr,
                            message: MessageView {
                                id: m.next_id,
                                payload: data,
                                sender: m.local,
                            },
                        },
                        ActionView::Emit {
                            event: EventView::MessageSent {
                                peer: addr,
                                message_id: m.next_id,
                                timestamp: now,
                            },
                        },
                    ],
                )
            } else {
                (
                    m,
                    seq![
                        ActionView::Emit {
                            event: EventView::MessageFailed {
                                peer: addr,
                                message_id: m.next_id,
                            },
                        },
                    ],
                )
            },
            CommandView::Received { addr, message } => (
                m,
                seq![
                    ActionView::Emit {
                        event: EventView::MessageReceived {
                            peer: addr,
                            message_id: message.id,
                            payload: message.payload,
                            timestamp: now,
                        },
                    },
                ],
            ),
        },
        InputV::Shutdown => (
            ManagerModel { peers: Seq::empty(), ..m },
            m.peers.map_values(|p: Seq<char>| ActionView::CancelSession { addr: p }),
        ),
    }
}

/// The state of the connection manager.
pub struct ManagerState {
    /// The local listening address, the sender of outgoing messages.
    pub local_addr: String,
    /// The addresses of the live sessions.
    pub peers: Vec<String>,
    /// The id the next message handed to a session will carry.
    pub next_message_id: u64,
}

impl View for ManagerState {
    type V = ManagerModel;

    open spec fn view(&self) -> ManagerModel {
        ManagerModel {
            local: self.local_addr@,
            peers: self.peers@.map_values(|s: String| s@),
            next_id: self.next_message_id,
        }
    }
}

impl ManagerState {
    /// The manager's invariant: the peer table holds no address twice.
    pub open spec fn wf(&self) -> bool {
        peers_unique(self@.peers)
    }

    /// A manager just bound to `local_addr`: no sessions, ids from zero.
    pub fn new(local_addr: String) -> (r: Self)
        ensures
            r.wf(),
            r@.local == local_addr@,
            r@.peers == Seq::<Seq<char>>::empty(),
            r@.next_id == 0,
    {
        let r = ManagerState { local_addr, peers: Vec::new(), next_message_id: 0 };
        proof {
            assert(r@.peers =~= Seq::<Seq<char>>::empty());
        }
        r
    }

    /// The index of the session for `addr`, if one exists.
    fn index_of_peer(&self, addr: &String) -> (r: Option<usize>)
        ensures
            match r {
                Some(i) => i < self@.peers.len() && self@.peers[i as int] == addr@ && (forall|
                    j: int,
                |
                    0 <= j < i ==> self@.peers[j] != addr@),
                None => !has_peer(self@.peers, addr@),
            },
    {
        let mut i: usize = 0;
        while i < self.peers.len()
            invariant
                i <= self@.peers.len(),
                forall|j: int| 0 <= j < i ==> self@.peers[j] != addr@,
            decreases self@.peers.len() - i,
        {
            if self.peers[i] == *addr {
                return Some(i);
            }
            i = i + 1;
        }
        proof {
            assert(!has_peer(self@.peers, addr@));
        }
        None
    }

    /// Whether a session for `addr` exists.
    pub fn has_session(&self, addr: &String) -> (r: bool)
        ensures
            r == has_peer(self@.peers, addr@),
    {
        match self.index_of_peer(addr) {
            Some(_) => true,
            None => false,
        }
    }

    /// Adds `addr` to the peer table, unless it is already there.
    fn insert(&mut self, addr: &String)
        requires
            old(self).wf(),
        ensures
            final(self).wf(),
            final(self)@ == (ManagerModel {
                peers: insert_peer(old(self)@.peers, addr@),
                ..old(self)@
            }),
    {
        match self.index_of_peer(addr) {
            Some(_) => {
                proof {
                    assert(self@ =~= (ManagerModel {
                        peers: insert_peer(self@.peers, addr@),
                        ..self@
                    }));
                }
            },
            None => {
                let ghost prev = self@.peers;
                self.peers.push(clone_string(addr));
                proof {
                    assert(self@.peers =~= prev.push(addr@));
                    assert(self@ =~= (ManagerModel {
                        peers: insert_peer(old(self)@.peers, addr@),
                        ..old(self)@
                    }));
                    assert forall|i: int, j: int|
                        0 <= i < j < self@.peers.len() implies self@.peers[i]
                        != self@.peers[j] by {
                        if j < prev.len() {
                        } else {
                            assert(self@.peers[j] == addr@);
                            assert(!prev.contains(addr@));
                        }
                    }
                }
            },
        }
    }

    /// Removes `addr` from the peer table; returns whether it was there.
    fn remove(&mut self, addr: &String) -> (r: bool)
        requires
            old(self).wf(),
        ensures
            final(self).wf(),
            r == has_peer(old(self)@.peers, addr@),
            final(self)@ == (ManagerModel {
                peers: remove_peer(old(self)@.peers, addr@),
                ..old(self)@
            }),
    {
        match self.index_of_peer(addr) {
            Some(i) => {
                let ghost prev = self@.peers;
                let _ = self.peers.remove(i);
                proof {
                    assert(self@.peers =~= prev.remove(i as int));
                    lemma_remove_peer_at(prev, addr@, i as int);
                    assert forall|a: int, b: int|
                        0 <= a < b < self@.peers.len() implies self@.peers[a]
                        != self@.peers[b] by {
                        let a0 = if a < i { a } else { a + 1 };
                        let b0 = if b < i { b } else { b + 1 };
                        assert(self@.peers[a] == prev[a0] && self@.peers[b] == prev[b0]);
                    }
                    assert(self@ =~= (ManagerModel {
                        peers: remove_peer(old(self)@.peers, addr@),
                        ..old(self)@
                    }));
                }
                true
            },
            None => {
                proof {
                    lemma_remove_peer_absent(self@.peers, addr@);
                    assert(self@ =~= (ManagerModel {
                        peers: remove_peer(self@.peers, addr@),
                        ..self@
                    }));
                }
                false
            },
        }
    }
}

impl ManagerState {
    /// Decides on an accepted inbound connection: ask the host whether to
    /// take it.
    pub fn on_inbound_request(&self, peer: String) -> (r: Vec<Action>)
        ensures
            action_views(r@) == manager_step(self@, InputV::InboundRequest { peer: peer@ }).1,
            manager_step(self@, InputV::InboundRequest { peer: peer@ }).0 == self@,
    {
        let r = vec![Action::Emit { event: Event::ConnectionRequested { peer } }];
        proof {
            assert(action_views(r@) =~= manager_step(
                self@,
                InputV::InboundRequest { peer: peer@ },
            ).1);
        }
        r
    }

    /// Decides on the host's answer to an inbound connection request: an
    /// accepted peer enters the table, gets a session and is announced; a
    /// rejected one is dropped silently.
    pub fn on_inbound_decision(&mut self, peer: String, accepted: bool) -> (r: Vec<Action>)
        requires
            old(self).wf(),
        ensures
            final(self).wf(),
            final(self)@ == manager_step(
                old(self)@,
                InputV::InboundDecision { peer: peer@, accepted },
            ).0,
            action_views(r@) == manager_step(
                old(self)@,
                InputV::InboundDecision { peer: peer@, accepted },
            ).1,
    {
        if accepted {
            self.insert(&peer);
            let r = vec![
                Action::SpawnSession { addr: clone_string(&peer) },
                Action::Emit { event: Event::ConnectionEstablished { peer } },
            ];
            proof {
                assert(action_views(r@) =~= manager_step(
                    old(self)@,
                    InputV::InboundDecision { peer: peer@, accepted },
                ).1);
            }
            r
        } else {
            let r: Vec<Action> = Vec::new();
            proof {
                assert(action_views(r@) =~= Seq::<ActionView>::empty());
            }
            r
        }
    }

    /// Decides on the outcome of an outbound connection attempt: a
    /// connected peer enters the table, gets a session and is announced; a
    /// failed attempt is reported as rejected and leaves no table entry.
    pub fn on_connect_result(&mut self, addr: String, connected: bool) -> (r: Vec<Action>)
        requires
            old(self).wf(),
        ensures
            final(self).wf(),
            final(self)@ == manager_step(
                old(self)@,
                InputV::ConnectResult { addr: addr@, connected },
            ).0,
            action_views(r@) == manager_step(
                old(self)@,
                InputV::ConnectResult { addr: addr@, connected },
            ).1,
    {
        if connected {
            self.insert(&addr);
            let r = vec![
                Action::SpawnSession { addr: clone_string(&addr) },
                Action::Emit { event: Event::ConnectionEstablished { peer: addr } },
            ];
            proof {
                assert(action_views(r@) =~= manager_step(
                    old(self)@,
                    InputV::ConnectResult { addr: addr@, connected },
                ).1);
            }
            r
        } else {
            let r = vec![Action::Emit { event: Event::ConnectionRejected { peer: addr } }];
            proof {
                assert(action_views(r@) =~= manager_step(
                    old(self)@,
                    InputV::ConnectResult { addr: addr@, connected },
                ).1);
            }
            r
        }
    }

    /// Decides on a command from the host or from a session; `now` is the
    /// host clock in milliseconds.
    pub fn on_command(&mut self, cmd: Command, now: u64) -> (r: Vec<Action>)
        requires
            old(self).wf(),
        ensures
            final(self).wf(),
            final(self)@ == manager_step(old(self)@, InputV::Cmd { cmd: cmd@, now }).0,
            action_views(r@) == manager_step(old(self)@, InputV::Cmd { cmd: cmd@, now }).1,
    {
        let ghost inp = InputV::Cmd { cmd: cmd@, now };
        match cmd {
            Command::Connect { addr } => {
                let r = vec![Action::AttemptConnect { addr }];
                proof {
                    assert(action_views(r@) =~= manager_step(old(self)@, inp).1);
                }
                r
            },
            Command::Disconnect { addr } => {
                let was_there = self.remove(&addr);
                if was_there {
                    let r = vec![
                        Action::CancelSession { addr: clone_string(&addr) },
                        Action::Emit { event: Event::ConnectionDisconnected { peer: addr } },
                    ];
                    proof {
                        assert(action_views(r@) =~= manager_step(old(self)@, inp).1);
                    }
                    r
                } else {
                    let r: Vec<Action> = Vec::new();
                    proof {
                        lemma_remove_peer_absent(old(self)@.peers, addr@);
                        assert(action_views(r@) =~= Seq::<ActionView>::empty());
                    }
                    r
                }
            },
            Command::SendMessage { addr, data } => {
                if self.has_session(&addr) {
                    let id = self.next_message_id;
                    let message = Message {
                        id,
                        payload: data,
                        sender: clone_string(&self.local_addr),
                    };
                    let r = vec![
                        Action::ForwardMessage { addr: clone_string(&addr), message },
                        Action::Emit {
                            event: Event::MessageSent { peer: addr, message_id: id, timestamp: now },
                        },
                    ];
                    self.next_message_id = if id == u64::MAX {
                        0
                    } else {
                        id + 1
                    };
                    proof {
                        assert(self@ =~= manager_step(old(self)@, inp).0);
                        assert(action_views(r@) =~= manager_step(old(self)@, inp).1);
                    }
                    r
                } else {
                    let r = vec![
                        Action::Emit {
                            event: Event::MessageFailed {
                                peer: addr,
                                message_id: self.next_message_id,
                            },
                        },
                    ];
                    proof {
                        assert(action_views(r@) =~= manager_step(old(self)@, inp).1);
                    }
                    r
                }
            },
            Command::Received { addr, message } => {
                let r = vec![
                    Action::Emit {
                        event: Event::MessageReceived {
                            peer: addr,
                            message_id: message.id,
                            payload: message.payload,
                            timestamp: now,
                        },
                    },
                ];
                proof {
                    assert(action_views(r@) =~= manager_step(old(self)@, inp).1);
                }
                r
            },
        }
    }

    /// Decides on cancellation: empty the peer table and cancel every
    /// session; the host joins each before the manager task returns, and
    /// closing the event stream then tells the host that shutdown is
    /// complete.
    pub fn on_shutdown(&mut self) -> (r: Vec<Action>)
        requires
            old(self).wf(),
        ensures
            final(self).wf(),
            final(self)@ == manager_step(old(self)@, InputV::Shutdown).0,
            action_views(r@) == manager_step(old(self)@, InputV::Shutdown).1,
    {
        let mut r: Vec<Action> = Vec::new();
        let mut i: usize = 0;
        while i < self.peers.len()
            invariant
                i <= self@.peers.len(),
                self@ == old(self)@,
                action_views(r@) == self@.peers.take(i as int).map_values(
                    |p: Seq<char>| ActionView::CancelSession { addr: p },
                ),
            decreases self@.peers.len() - i,
        {
            let ghost prev = r@;
            r.push(Action::CancelSession { addr: clone_string(&self.peers[i]) });
            i = i + 1;
            proof {
                assert(action_views(r@) =~= action_views(prev).push(
                    ActionView::CancelSession { addr: self@.peers[i - 1] },
                ));
                assert(self@.peers.take(i as int) =~= self@.peers.take(i - 1).push(
                    self@.peers[i - 1],
                ));
                assert(self@.peers.take(i - 1).push(self@.peers[i - 1]).map_values(
                    |p: Seq<char>| ActionView::CancelSession { addr: p },
                ) =~= self@.peers.take(i - 1).map_values(
                    |p: Seq<char>| ActionView::CancelSession { addr: p },
                ).push(ActionView::CancelSession { addr: self@.peers[i - 1] }));
            }
        }
        self.peers = Vec::new();
        proof {
            assert(old(self)@.peers.take(old(self)@.peers.len() as int) =~= old(self)@.peers);
            assert(self@.peers =~= Seq::<Seq<char>>::empty());
            assert(self@ =~= manager_step(old(self)@, InputV::Shutdown).0);
        }
        r
    }
}

/// The events among `actions`, in order.
pub open spec fn emitted_events(actions: Seq<ActionView>) -> Seq<EventView>
    decreases actions.len(),
{
    if actions.len() == 0 {
        Seq::empty()
    } else {
        let rest = emitted_events(actions.drop_first());
        match actions[0] {
            ActionView::Emit { event } => seq![event] + rest,
            _ => rest,
        }
    }
}

/// A whole run of the manager: the model at the end and every event
/// emitted along the way, in order.
pub open spec fn manager_run(m: ManagerModel, inputs: Seq<InputV>) -> (
    ManagerModel,
    Seq<EventView>,
)
    decreases inputs.len(),
{
    if inputs.len() == 0 {
        (m, Seq::empty())
    } else {
        let s = manager_step(m, inputs[0]);
        let rest = manager_run(s.0, inputs.drop_first());
        (rest.0, emitted_events(s.1) + rest.1)
    }
}

/// Whether, after the events `events`, the session of `p` is open: its
/// latest connection event is an establishment with no disconnection
/// after it.
pub open spec fn session_open(events: Seq<EventView>, p: Seq<char>) -> bool
    decreases events.len(),
{
    if events.len() == 0 {
        false
    } else if events.last() == (EventView::ConnectionEstablished { peer: p }) {
        true
    } else if events.last() == (EventView::ConnectionDisconnected { peer: p }) {
        false
    } else {
        session_open(events.drop_last(), p)
    }
}

/// One more event changes `session_open` only if it is the establishment
/// or the disconnection of that very peer.
proof fn lemma_session_open_push(h: Seq<EventView>, e: EventView, p: Seq<char>)
    ensures
        session_open(h.push(e), p) == if e == (EventView::ConnectionEstablished { peer: p }) {
            true
        } else if e == (EventView::ConnectionDisconnected { peer: p }) {
            false
        } else {
            session_open(h, p)
        },
{
    assert(h.push(e).last() == e);
    assert(h.push(e).drop_last() =~= h);
}

/// The one event of a single emit action.
pub proof fn lemma_emitted_single(e: EventView)
    ensures
        emitted_events(seq![ActionView::Emit { event: e }]) == seq![e],
{
    let s = seq![ActionView::Emit { event: e }];
    assert(s.drop_first() =~= Seq::<ActionView>::empty());
    assert(emitted_events(Seq::<ActionView>::empty()) == Seq::<EventView>::empty());
    assert(emitted_events(s) =~= seq![e]);
}

/// A single action that emits nothing emits nothing.
proof fn lemma_emitted_silent(a: ActionView)
    requires
        !(a is Emit),
    ensures
        emitted_events(seq![a]) == Seq::<EventView>::empty(),
{
    let s = seq![a];
    assert(s.drop_first() =~= Seq::<ActionView>::empty());
    assert(emitted_events(Seq::<ActionView>::empty()) == Seq::<EventView>::empty());
    assert(emitted_events(s) =~= Seq::<EventView>::empty());
}

/// The one event of a silent action followed by an emit.
proof fn lemma_emitted_pair(a: ActionView, e: EventView)
    requires
        !(a is Emit),
    ensures
        emitted_events(seq![a, ActionView::Emit { event: e }]) == seq![e],
{
    let s = seq![a, ActionView::Emit { event: e }];
    assert(s.drop_first() =~= seq![ActionView::Emit { event: e }]);
    lemma_emitted_single(e);
    assert(emitted_events(s) =~= seq![e]);
}

/// A row of cancellations emits nothing.
proof fn lemma_emitted_cancels(ps: Seq<Seq<char>>)
    ensures
        emitted_events(ps.map_values(|q: Seq<char>| ActionView::CancelSession { addr: q }))
            == Seq::<EventView>::empty(),
    decreases ps.len(),
{
    let s = ps.map_values(|q: Seq<char>| ActionView::CancelSession { addr: q });
    if ps.len() > 0 {
        lemma_emitted_cancels(ps.drop_first());
        assert(s.drop_first() =~= ps.drop_first().map_values(
            |q: Seq<char>| ActionView::CancelSession { addr: q },
        ));
        assert(emitted_events(s) =~= Seq::<EventView>::empty());
    } else {
        assert(emitted_events(s) =~= Seq::<EventView>::empty());
    }
}

/// What inserting a peer does to membership and uniqueness.
proof fn lemma_insert_peer_props(s: Seq<Seq<char>>, p: Seq<char>)
    requires
        peers_unique(s),
    ensures
        peers_unique(insert_peer(s, p)),
        has_peer(insert_peer(s, p), p),
        forall|q: Seq<char>| q != p ==> has_peer(insert_peer(s, p), q) == has_peer(s, q),
{
    if !s.contains(p) {
        let s2 = s.push(p);
        assert(s2[s.len() as int] == p);
        assert forall|i: int, j: int| 0 <= i < j < s2.len() implies s2[i] != s2[j] by {
            if j < s.len() {
            } else {
                assert(s2[j] == p);
                assert(s2[i] == s[i]);
                assert(!s.contains(p));
            }
        }
        assert forall|q: Seq<char>| q != p implies has_peer(s2, q) == has_peer(s, q) by {
            if has_peer(s2, q) {
                let k = choose|k: int| 0 <= k < s2.len() && s2[k] == q;
                assert(k < s.len() && s[k] == q);
            }
            if has_peer(s, q) {
                let k = choose|k: int| 0 <= k < s.len() && s[k] == q;
                assert(s2[k] == q);
            }
        }
    }
}

/// What removing a peer does to membership and uniqueness.
proof fn lemma_remove_peer_props(s: Seq<Seq<char>>, p: Seq<char>)
    requires
        peers_unique(s),
    ensures
        peers_unique(remove_peer(s, p)),
        !has_peer(remove_peer(s, p), p),
        forall|q: Seq<char>| q != p ==> has_peer(remove_peer(s, p), q) == has_peer(s, q),
    decreases s.len(),
{
    if s.len() == 0 {
    } else {
        let tail = s.drop_first();
        assert(peers_unique(tail)) by {
            assert forall|i: int, j: int| 0 <= i < j < tail.len() implies tail[i] != tail[j] by {
                assert(tail[i] == s[i + 1] && tail[j] == s[j + 1]);
            }
        }
        if s[0] == p {
            assert(remove_peer(s, p) == tail);
            assert(!has_peer(tail, p)) by {
                if has_peer(tail, p) {
                    let k = choose|k: int| 0 <= k < tail.len() && tail[k] == p;
                    assert(s[k + 1] == p && s[0] == p);
                }
            }
            assert forall|q: Seq<char>| q != p implies has_peer(tail, q) == has_peer(s, q) by {
                if has_peer(tail, q) {
                    let k = choose|k: int| 0 <= k < tail.len() && tail[k] == q;
                    assert(s[k + 1] == q);
                }
                if has_peer(s, q) {
                    let k = choose|k: int| 0 <= k < s.len() && s[k] == q;
                    assert(k >= 1 && tail[k - 1] == q);
                }
            }
        } else {
            lemma_remove_peer_props(tail, p);
            let rec = remove_peer(tail, p);
            let whole = seq![s[0]] + rec;
            assert(remove_peer(s, p) == whole);
            assert(!has_peer(tail, s[0])) by {
                if has_peer(tail, s[0]) {
                    let k = choose|k: int| 0 <= k < tail.len() && tail[k] == s[0];
                    assert(s[k + 1] == s[0]);
                }
            }
            assert(peers_unique(whole)) by {
                assert forall|i: int, j: int|
                    0 <= i < j < whole.len() implies whole[i] != whole[j] by {
                    if i == 0 {
                        assert(whole[j] == rec[j - 1]);
                        assert(has_peer(rec, rec[j - 1]));
                        if whole[0] == rec[j - 1] {
                            assert(has_peer(tail, s[0]));
                        }
                    } else {
                        assert(whole[i] == rec[i - 1] && whole[j] == rec[j - 1]);
                    }
                }
            }
            assert(!has_peer(whole, p)) by {
                if has_peer(whole, p) {
                    let k = choose|k: int| 0 <= k < whole.len() && whole[k] == p;
                    if k == 0 {
                        assert(s[0] == p);
                    } else {
                        assert(rec[k - 1] == p);
                        assert(has_peer(rec, p));
                    }
                }
            }
            assert forall|q: Seq<char>| q != p implies has_peer(whole, q) == has_peer(s, q) by {
                if has_peer(whole, q) {
                    let k = choose|k: int| 0 <= k < whole.len() && whole[k] == q;
                    if k == 0 {
                        assert(s[0] == q);
                    } else {
                        assert(has_peer(rec, q));
                        assert(has_peer(tail, q));
                        let k2 = choose|k2: int| 0 <= k2 < tail.len() && tail[k2] == q;
                        assert(s[k2 + 1] == q);
                    }
                }
                if has_peer(s, q) {
                    let k = choose|k: int| 0 <= k < s.len() && s[k] == q;
                    if k == 0 {
                        assert(whole[0] == q);
                    } else {
                        assert(tail[k - 1] == q);
                        assert(has_peer(tail, q));
                        assert(has_peer(rec, q));
                        let k2 = choose|k2: int| 0 <= k2 < rec.len() && rec[k2] == q;
                        assert(whole[k2 + 1] == q);
                    }
                }
            }
        }
    }
}

/// One manager step keeps the peer table in step with the event stream:
/// afterwards an address is in the table exactly when its latest
/// connection event, in the history extended by what the step emitted, is
/// an establishment. Holds of every input but shutdown, which empties the
/// table and closes the stream instead of emitting events.
proof fn lemma_step_tracks_events(h: Seq<EventView>, m: ManagerModel, inp: InputV)
    requires
        peers_unique(m.peers),
        !(inp is Shutdown),
        forall|p: Seq<char>| has_peer(m.peers, p) <==> session_open(h, p),
    ensures
        peers_unique(manager_step(m, inp).0.peers),
        forall|p: Seq<char>|
            has_peer(manager_step(m, inp).0.peers, p) <==> session_open(
                h + emitted_events(manager_step(m, inp).1),
                p,
            ),
{
    let s = manager_step(m, inp);
    match inp {
        InputV::InboundRequest { peer } => {
            lemma_emitted_single(EventView::ConnectionRequested { peer });
            assert forall|p: Seq<char>|
                has_peer(s.0.peers, p) <==> session_open(h + emitted_events(s.1), p) by {
                assert(h + emitted_events(s.1) =~= h.push(
                    EventView::ConnectionRequested { peer },
                ));
                lemma_session_open_push(h, EventView::ConnectionRequested { peer }, p);
            }
        },
        InputV::InboundDecision { peer, accepted } => {
            if accepted {
                lemma_insert_peer_props(m.peers, peer);
                lemma_emitted_pair(
                    ActionView::SpawnSession { addr: peer },
                    EventView::ConnectionEstablished { peer },
                );
                assert forall|p: Seq<char>|
                    has_peer(s.0.peers, p) <==> session_open(h + emitted_events(s.1), p) by {
                    assert(h + emitted_events(s.1) =~= h.push(
                        EventView::ConnectionEstablished { peer },
                    ));
                    lemma_session_open_push(h, EventView::ConnectionEstablished { peer }, p);
                }
            } else {
                assert(h + emitted_events(s.1) =~= h);
            }
        },
        InputV::ConnectResult { addr, connected } => {
            if connected {
                lemma_insert_peer_props(m.peers, addr);
                lemma_emitted_pair(
                    ActionView::SpawnSession { addr },
                    EventView::ConnectionEstablished { peer: addr },
                );
                assert forall|p: Seq<char>|
                    has_peer(s.0.peers, p) <==> session_open(h + emitted_events(s.1), p) by {
                    assert(h + emitted_events(s.1) =~= h.push(
                        EventView::ConnectionEstablished { peer: addr },
                    ));
                    lemma_session_open_push(h, EventView::ConnectionEstablished { peer: addr }, p);
                }
            } else {
                lemma_emitted_single(EventView::ConnectionRejected { peer: addr });
                assert forall|p: Seq<char>|
                    has_peer(s.0.peers, p) <==> session_open(h + emitted_events(s.1), p) by {
                    assert(h + emitted_events(s.1) =~= h.push(
                        EventView::ConnectionRejected { peer: addr },
                    ));
                    lemma_session_open_push(h, EventView::ConnectionRejected { peer: addr }, p);
                }
            }
        },
        InputV::Cmd { cmd, now } => match cmd {
            CommandView::Connect { addr } => {
                lemma_emitted_silent(ActionView::AttemptConnect { addr });
                assert(h + emitted_events(s.1) =~= h);
            },
            CommandView::Disconnect { addr } => {
                if has_peer(m.peers, addr) {
                    lemma_remove_peer_props(m.peers, addr);
                    lemma_emitted_pair(
                        ActionView::CancelSession { addr },
                        EventView::ConnectionDisconnected { peer: addr },
                    );
                    assert forall|p: Seq<char>|
                        has_peer(s.0.peers, p) <==> session_open(h + emitted_events(s.1), p) by {
                        assert(h + emitted_events(s.1) =~= h.push(
                            EventView::ConnectionDisconnected { peer: addr },
                        ));
                        lemma_session_open_push(
                            h,
                            EventView::ConnectionDisconnected { peer: addr },
                            p,
                        );
                    }
                } else {
                    assert(h + emitted_events(s.1) =~= h);
                }
            },
            CommandView::SendMessage { addr, data } => {
                if has_peer(m.peers, addr) {
                    let e = EventView::MessageSent {
                        peer: addr,
                        message_id: m.next_id,
                        timestamp: now,
                    };
                    lemma_emitted_pair(
                        ActionView::ForwardMessage {
                            addr,
                            message: MessageView {
                                id: m.next_id,
                                payload: data,
                                sender: m.local,
                            },
                        },
                        e,
                    );
                    assert forall|p: Seq<char>|
                        has_peer(s.0.peers, p) <==> session_open(h + emitted_events(s.1), p) by {
                        assert(h + emitted_events(s.1) =~= h.push(e));
                        lemma_session_open_push(h, e, p);
                    }
                } else {
                    let e = EventView::MessageFailed { peer: addr, message_id: m.next_id };
                    lemma_emitted_single(e);
                    assert forall|p: Seq<char>|
                        has_peer(s.0.peers, p) <==> session_open(h + emitted_events(s.1), p) by {
                        assert(h + emitted_events(s.1) =~= h.push(e));
                        lemma_session_open_push(h, e, p);
                    }
                }
            },
            CommandView::Received { addr, message } => {
                let e = EventView::MessageReceived {
                    peer: addr,
                    message_id: message.id,
                    payload: message.payload,
                    timestamp: now,
                };
                lemma_emitted_single(e);
                assert forall|p: Seq<char>|
                    has_peer(s.0.peers, p) <==> session_open(h + emitted_events(s.1), p) by {
                    assert(h + emitted_events(s.1) =~= h.push(e));
                    lemma_session_open_push(h, e, p);
                }
            },
        },
        InputV::Shutdown => {
        },
    }
}

/// Peer-table conservation along a run: starting from a table in step with
/// a history, the table stays in step with the history extended by what
/// the run emits. Shutdown is excluded: it empties the table and closes
/// the event stream without emitting disconnections.
proof fn lemma_run_tracks_events(h: Seq<EventView>, m: ManagerModel, inputs: Seq<InputV>)
    requires
        peers_unique(m.peers),
        forall|k: int| 0 <= k < inputs.len() ==> !(#[trigger] inputs[k] is Shutdown),
        forall|p: Seq<char>| has_peer(m.peers, p) <==> session_open(h, p),
    ensures
        peers_unique(manager_run(m, inputs).0.peers),
        forall|p: Seq<char>|
            has_peer(manager_run(m, inputs).0.peers, p) <==> session_open(
                h + manager_run(m, inputs).1,
                p,
            ),
    decreases inputs.len(),
{
    if inputs.len() == 0 {
        assert(h + manager_run(m, inputs).1 =~= h);
    } else {
        let s = manager_step(m, inputs[0]);
        lemma_step_tracks_events(h, m, inputs[0]);
        assert(forall|k: int|
            0 <= k < inputs.drop_first().len() ==> !(#[trigger] inputs.drop_first()[k]
                is Shutdown));
        lemma_run_tracks_events(h + emitted_events(s.1), s.0, inputs.drop_first());
        let rest = manager_run(s.0, inputs.drop_first());
        assert((h + emitted_events(s.1)) + rest.1 =~= h + (emitted_events(s.1) + rest.1));
    }
}

/// Law: peer-table conservation. In any run of a freshly bound manager, up
/// to shutdown, an address is in the peer table exactly when the event
/// stream so far shows its connection established and not yet
/// disconnected: table membership periods and
/// establishment-to-disconnection intervals of the event stream
/// correspond one to one.
pub proof fn lemma_peer_table_conservation(
    local: Seq<char>,
    inputs: Seq<InputV>,
    p: Seq<char>,
)
    requires
        forall|k: int| 0 <= k < inputs.len() ==> !(#[trigger] inputs[k] is Shutdown),
    ensures
        ({
            let fresh = ManagerModel { local, peers: Seq::empty(), next_id: 0 };
            has_peer(manager_run(fresh, inputs).0.peers, p) <==> session_open(
                manager_run(fresh, inputs).1,
                p,
            )
        }),
{
    let fresh = ManagerModel { local, peers: Seq::empty(), next_id: 0 };
    lemma_run_tracks_events(Seq::empty(), fresh, inputs);
    assert(Seq::<EventView>::empty() + manager_run(fresh, inputs).1 =~= manager_run(
        fresh,
        inputs,
    ).1);
}

/// Law: cancellation bounds. A disconnect command produces exactly one
/// disconnection event when a session exists and none otherwise, and it
/// removes the session, so a second disconnect for the same peer, however
/// it comes about, produces nothing.
pub proof fn lemma_disconnect_exactly_once(
    m: ManagerModel,
    p: Seq<char>,
    now1: u64,
    now2: u64,
)
    requires
        peers_unique(m.peers),
    ensures
        ({
            let s1 = manager_step(m, InputV::Cmd { cmd: CommandView::Disconnect { addr: p }, now: now1 });
            let s2 = manager_step(
                s1.0,
                InputV::Cmd { cmd: CommandView::Disconnect { addr: p }, now: now2 },
            );
            &&& has_peer(m.peers, p) ==> emitted_events(s1.1) == seq![
                EventView::ConnectionDisconnected { peer: p },
            ]
            &&& !has_peer(m.peers, p) ==> emitted_events(s1.1) == Seq::<EventView>::empty()
            &&& !has_peer(s1.0.peers, p)
            &&& emitted_events(s2.1) == Seq::<EventView>::empty()
        }),
{
    if has_peer(m.peers, p) {
        lemma_remove_peer_props(m.peers, p);
        lemma_emitted_pair(
            ActionView::CancelSession { addr: p },
            EventView::ConnectionDisconnected { peer: p },
        );
    }
    assert(emitted_events(Seq::<ActionView>::empty()) =~= Seq::<EventView>::empty());
}

/// Law: shutdown completeness. Shutdown empties the peer table and asks
/// the host to cancel the session of every peer that was in it, one
/// cancellation each; the host awaits each cancelled task and then closes
/// the event stream, so after shutdown no session task is left.
pub proof fn lemma_shutdown_completeness(m: ManagerModel)
    ensures
        manager_step(m, InputV::Shutdown).0.peers == Seq::<Seq<char>>::empty(),
        manager_step(m, InputV::Shutdown).1 == m.peers.map_values(
            |q: Seq<char>| ActionView::CancelSession { addr: q },
        ),
        emitted_events(manager_step(m, InputV::Shutdown).1) == Seq::<EventView>::empty(),
{
    lemma_emitted_cancels(m.peers);
}

/// Removing the first occurrence, found at `i`, drops exactly index `i`.
proof fn lemma_remove_peer_at(s: Seq<Seq<char>>, p: Seq<char>, i: int)
    requires
        0 <= i < s.len(),
        s[i] == p,
        forall|j: int| 0 <= j < i ==> s[j] != p,
    ensures
        remove_peer(s, p) == s.remove(i),
    decreases i,
{
    if i == 0 {
        assert(remove_peer(s, p) =~= s.remove(0));
    } else {
        lemma_remove_peer_at(s.drop_first(), p, i - 1);
        assert(seq![s[0]] + s.drop_first().remove(i - 1) =~= s.remove(i));
    }
}

/// Removing an absent address changes nothing.
proof fn lemma_remove_peer_absent(s: Seq<Seq<char>>, p: Seq<char>)
    requires
        !s.contains(p),
    ensures
        remove_peer(s, p) == s,
    decreases s.len(),
{
    if s.len() > 0 {
        assert(s[0] != p);
        assert(!s.drop_first().contains(p)) by {
            if s.drop_first().contains(p) {
                let k = choose|k: int| 0 <= k < s.drop_first().len() && s.drop_first()[k] == p;
                assert(s[k + 1] == p);
            }
        }
        lemma_remove_peer_absent(s.drop_first(), p);
        assert(seq![s[0]] + s.drop_first() =~= s);
    }
}

} // verus!
