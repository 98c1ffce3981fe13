//! A packet protocol engine for a two-peer, multi-channel network transport:
//! channel and direction typing, a connection-phase state machine, packet
//! framing and codec, and the byte-reassembly queue that turns a stream of
//! arbitrarily sized fragments back into discrete packets.

use vstd::prelude::*;

pub mod byte_queue;
pub mod channel;
pub mod chunk;
pub mod codec;
pub mod connection;
pub mod header;
pub mod packet;
pub mod peer;
pub mod receiver;
pub mod sender;
pub mod state;

verus! {

/// The ways an operation of this crate can fail. Every failure is local to a
/// single packet: the protocol engine always recovers stream alignment and
/// continues with the next packet.
#[derive(Debug, Clone, Copy, PartialEq, Eq, Structural)]
pub enum ErrorKind {
    /// A packet was presented to a connection phase it does not belong to.
    /// The packet is not applied; the condition is recoverable.
    WrongState,
    /// A frame header carried a state tag that maps to no connection state.
    /// The payload it announced is discarded so the stream stays aligned.
    InvalidState(u8),
    /// A payload did not decode to a packet. Its unread bytes are discarded.
    Codec,
    /// A packet's encoding does not fit the wire format's length limits.
    PacketTooLarge,
}

/// An error raised by the protocol engine, carrying the kind of failure.
#[derive(Debug, Clone, Copy, PartialEq, Eq, Structural)]
pub struct Error {
    pub kind: ErrorKind,
}

impl Error {
    /// The kind of failure this error reports.
    pub fn kind(&self) -> (k: ErrorKind)
        ensures
            k == self.kind,
    {
        self.kind
    }

    /// An error reporting a packet presented to the wrong phase.
    pub fn wrong_state() -> (e: Error)
        ensures
            e.kind == ErrorKind::WrongState,
    {
        Error { kind: ErrorKind::WrongState }
    }

    /// An error reporting a frame header whose state tag `tag` maps to no
    /// connection state.
    pub fn invalid_state(tag: u8) -> (e: Error)
        ensures
            e.kind == ErrorKind::InvalidState(tag),
    {
        Error { kind: ErrorKind::InvalidState(tag) }
    }

    /// An error reporting a payload that did not decode to a packet.
    pub fn codec() -> (e: Error)
        ensures
            e.kind == ErrorKind::Codec,
    {
        Error { kind: ErrorKind::Codec }
    }

    /// An error reporting a packet too large for the wire format.
    pub fn packet_too_large() -> (e: Error)
        ensures
            e.kind == ErrorKind::PacketTooLarge,
    {
        Error { kind: ErrorKind::PacketTooLarge }
    }
}

} // verus!
