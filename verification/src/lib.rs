//! AMS: an embeddable peer-to-peer messaging engine.
//!
//! The library holds the verified core of the engine: the length-delimited
//! frame codec, the message codec used by the transmit layer, the layered
//! frame-processing pipeline ("controller" of ordered "layers"), and the
//! decision logic of the connection manager and of the per-peer session.
//! An embedding host drives the asynchronous loops (sockets, channels,
//! tasks) and feeds their outcomes into these functions as plain values.

pub mod api;
pub mod app_state;
pub mod cli;
pub mod codec;
pub mod controller;
pub mod frame;
pub mod input;
pub mod layers;
pub mod manager;
pub mod session;
pub mod text;
pub mod widgets;

use vstd::prelude::*;

use crate::api::{Message, MessageView};

verus! {

/// A command handled by the connection manager: what the host asks for and
/// what sessions report back.
#[derive(Clone, Debug, PartialEq, Eq)]
pub enum Command {
    /// Connect to the peer at `addr`.
    Connect {
        /// The peer address to connect to.
        addr: String,
    },
    /// Tear down the session with `addr`.
    Disconnect {
        /// The address of the peer to disconnect.
        addr: String,
    },
    /// Send a payload to the peer at `addr`.
    SendMessage {
        /// The address of the receiving peer.
        addr: String,
        /// The payload to send.
        data: Vec<u8>,
    },
    /// A session decoded a message from its peer; `addr` is filled in by
    /// the session that received it.
    Received {
        /// The address of the peer the message came from.
        addr: String,
        /// The decoded message.
        message: Message,
    },
}

/// The mathematical content of a [`Command`].
#[verifier::ext_equal]
pub enum CommandView {
    /// Connect to the peer at `addr`.
    Connect { addr: Seq<char> },
    /// Tear down the session with `addr`.
    Disconnect { addr: Seq<char> },
    /// Send a payload to the peer at `addr`.
    SendMessage { addr: Seq<char>, data: Seq<u8> },
    /// A session decoded a message from its peer.
    Received { addr: Seq<char>, message: MessageView },
}

impl View for Command {
    type V = CommandView;

    open spec fn view(&self) -> CommandView {
        match self {
            Command::Connect { addr } => CommandView::Connect { addr: addr@ },
            Command::Disconnect { addr } => CommandView::Disconnect { addr: addr@ },
            Command::SendMessage { addr, data } => CommandView::SendMessage {
                addr: addr@,
                data: data@,
            },
            Command::Received { addr, message } => CommandView::Received {
                addr: addr@,
                message: message@,
            },
        }
    }
}

/// An event surfaced to the host. Timestamps are milliseconds supplied by
/// the embedding host when it drives the manager.
#[derive(Clone, Debug, PartialEq, Eq)]
pub enum Event {
    /// An inbound connection asks to be accepted; the host answers with a
    /// boolean.
    ConnectionRequested {
        /// The address of the requesting peer.
        peer: String,
    },
    /// A connection with `peer` is up.
    ConnectionEstablished {
        /// The address of the connected peer.
        peer: String,
    },
    /// An outbound connection attempt failed.
    ConnectionRejected {
        /// The address the connection attempt was for.
        peer: String,
    },
    /// The connection with `peer` is gone.
    ConnectionDisconnected {
        /// The address of the disconnected peer.
        peer: String,
    },
    /// A message arrived from `peer`.
    MessageReceived {
        /// The address of the sending peer.
        peer: String,
        /// The id the sender assigned to the message.
        message_id: u64,
        /// The payload.
        payload: Vec<u8>,
        /// When the message was received, in milliseconds.
        timestamp: u64,
    },
    /// A message was handed to the session for `peer`.
    MessageSent {
        /// The address of the receiving peer.
        peer: String,
        /// The id assigned to the message.
        message_id: u64,
        /// When the message was handed over, in milliseconds.
        timestamp: u64,
    },
    /// A message could not be sent: no session exists for `peer`.
    MessageFailed {
        /// The address the message was for.
        peer: String,
        /// The id the message would have carried.
        message_id: u64,
    },
}

/// The mathematical content of an [`Event`].
#[verifier::ext_equal]
pub enum EventView {
    /// An inbound connection asks to be accepted.
    ConnectionRequested { peer: Seq<char> },
    /// A connection with `peer` is up.
    ConnectionEstablished { peer: Seq<char> },
    /// An outbound connection attempt failed.
    ConnectionRejected { peer: Seq<char> },
    /// The connection with `peer` is gone.
    ConnectionDisconnected { peer: Seq<char> },
    /// A message arrived from `peer`.
    MessageReceived { peer: Seq<char>, message_id: u64, payload: Seq<u8>, timestamp: u64 },
    /// A message was handed to the session for `peer`.
    MessageSent { peer: Seq<char>, message_id: u64, timestamp: u64 },
    /// A message could not be sent.
    MessageFailed { peer: Seq<char>, message_id: u64 },
}

impl View for Event {
    type V = EventView;

    open spec fn view(&self) -> EventView {
        match self {
            Event::ConnectionRequested { peer } => EventView::ConnectionRequested { peer: peer@ },
            Event::ConnectionEstablished { peer } => EventView::ConnectionEstablished {
                peer: peer@,
            },
            Event::ConnectionRejected { peer } => EventView::ConnectionRejected { peer: peer@ },
            Event::ConnectionDisconnected { peer } => EventView::ConnectionDisconnected {
                peer: peer@,
            },
            Event::MessageReceived { peer, message_id, payload, timestamp } => {
                EventView::MessageReceived {
                    peer: peer@,
                    message_id: *message_id,
                    payload: payload@,
                    timestamp: *timestamp,
                }
            },
            Event::MessageSent { peer, message_id, timestamp } => EventView::MessageSent {
                peer: peer@,
                message_id: *message_id,
                timestamp: *timestamp,
            },
            Event::MessageFailed { peer, message_id } => EventView::MessageFailed {
                peer: peer@,
                message_id: *message_id,
            },
        }
    }
}

/// The views of the commands in `v`.
pub open spec fn command_views(v: Seq<Command>) -> Seq<CommandView> {
    v.map_values(|c: Command| c@)
}

/// The views of the events in `v`.
pub open spec fn event_views(v: Seq<Event>) -> Seq<EventView> {
    v.map_values(|e: Event| e@)
}

} // verus!
