//! Type-level names for the two peers and the directions packets may
//! travel between them.
//!
//! The engine's registration tables work over the [`crate::packet::Peer`]
//! and [`crate::packet::Direction`] value enums; these unit marker
//! types give call sites compile-time names for them, and the marker
//! traits [`Outbound`] and [`Inbound`] record, at the type level, which
//! directions a given peer may send or receive.

use vstd::prelude::*;

verus! {

/// The side that initiated the connection, is the source of player inputs,
/// and defers to the server in server-authoritative architectures.
#[derive(Debug)]
pub struct Client;

/// The side that accepts incoming connections and is the single source of
/// truth in server-authoritative architectures.
#[derive(Debug)]
pub struct Server;

/// A type-level name for one side of a connection between two devices.
pub trait Peer {
    /// The marker of the device on the other side of the connection.
    type Remote;

    /// The peer this marker names.
    spec fn spec_side() -> crate::packet::Peer;

    /// The peer this marker names.
    fn side() -> (p: crate::packet::Peer)
        ensures
            p == Self::spec_side(),
    ;
}

impl Peer for Client {
    type Remote = Server;

    open spec fn spec_side() -> crate::packet::Peer {
        crate::packet::Peer::Client
    }

    fn side() -> (p: crate::packet::Peer)
        ensures
            p == Self::spec_side(),
    {
        crate::packet::Peer::Client
    }
}

impl Peer for Server {
    type Remote = Client;

    open spec fn spec_side() -> crate::packet::Peer {
        crate::packet::Peer::Server
    }

    fn side() -> (p: crate::packet::Peer)
        ensures
            p == Self::spec_side(),
    {
        crate::packet::Peer::Server
    }
}

/// Data that is transmitted from the client to the server.
#[derive(Debug)]
pub struct ClientToServer;

/// Data that is transmitted from the server to the client.
#[derive(Debug)]
pub struct ServerToClient;

/// Data that can be transmitted from and to either peer.
#[derive(Debug)]
pub struct Bidirectional;

/// A type-level name for the direction data is transmitted over the
/// network between the two peers.
pub trait Direction {
    /// The direction this marker names.
    spec fn spec_heading() -> crate::packet::Direction;

    /// The direction this marker names.
    fn heading() -> (d: crate::packet::Direction)
        ensures
            d == Self::spec_heading(),
    ;
}

impl Direction for ClientToServer {
    open spec fn spec_heading() -> crate::packet::Direction {
        crate::packet::Direction::ClientToServer
    }

    fn heading() -> (d: crate::packet::Direction)
        ensures
            d == Self::spec_heading(),
    {
        crate::packet::Direction::ClientToServer
    }
}

impl Direction for ServerToClient {
    open spec fn spec_heading() -> crate::packet::Direction {
        crate::packet::Direction::ServerToClient
    }

    fn heading() -> (d: crate::packet::Direction)
        ensures
            d == Self::spec_heading(),
    {
        crate::packet::Direction::ServerToClient
    }
}

impl Direction for Bidirectional {
    open spec fn spec_heading() -> crate::packet::Direction {
        crate::packet::Direction::Bidirectional
    }

    fn heading() -> (d: crate::packet::Direction)
        ensures
            d == Self::spec_heading(),
    {
        crate::packet::Direction::Bidirectional
    }
}

/// A direction that is outbound for the peer marker `P`: packets
/// travelling in it are serialized and sent over the network from that
/// peer's perspective.
pub trait Outbound<P>: Direction {

}

impl Outbound<Client> for ClientToServer {

}

impl Outbound<Server> for ServerToClient {

}

impl Outbound<Client> for Bidirectional {

}

impl Outbound<Server> for Bidirectional {

}

/// A direction that is inbound for the peer marker `P`: packets travelling
/// in it are received from the network and deserialized from that peer's
/// perspective.
pub trait Inbound<P>: Direction {

}

impl Inbound<Client> for ServerToClient {

}

impl Inbound<Server> for ClientToServer {

}

impl Inbound<Client> for Bidirectional {

}

impl Inbound<Server> for Bidirectional {

}

} // verus!
