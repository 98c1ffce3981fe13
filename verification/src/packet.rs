//! The packet catalog and its static typing: every packet type is bound at
//! registration to one delivery [`Channel`] and one legal [`Direction`]
//! between the two peers.

use vstd::prelude::*;

verus! {

/// The delivery-guarantee class a packet type is bound to.
#[derive(Debug, Clone, Copy, PartialEq, Eq, Structural)]
pub enum Channel {
    /// Packets are guaranteed to arrive, in the same order they are sent.
    Ordered,
    /// Packets are guaranteed to arrive, but possibly out of order.
    Unordered,
    /// Packets may be lost, and may arrive out of order.
    Unreliable,
}

/// One side of a connection between two devices.
#[derive(Debug, Clone, Copy, PartialEq, Eq, Structural)]
pub enum Peer {
    /// The side that initiated the connection.
    Client,
    /// The side that accepted the connection.
    Server,
}

/// The direction a packet type may legally travel between the two peers.
#[derive(Debug, Clone, Copy, PartialEq, Eq, Structural)]
pub enum Direction {
    ClientToServer,
    ServerToClient,
    Bidirectional,
}

/// Whether a packet travelling in direction `d` may be sent by peer `p`.
pub open spec fn spec_is_outbound(d: Direction, p: Peer) -> bool {
    match d {
        Direction::ClientToServer => p == Peer::Client,
        Direction::ServerToClient => p == Peer::Server,
        Direction::Bidirectional => true,
    }
}

/// Whether a packet travelling in direction `d` may be sent by peer `p`.
#[verifier::when_used_as_spec(spec_is_outbound)]
pub fn is_outbound(d: Direction, p: Peer) -> (r: bool)
    ensures
        r == spec_is_outbound(d, p),
{
    match d {
        Direction::ClientToServer => matches!(p, Peer::Client),
        Direction::ServerToClient => matches!(p, Peer::Server),
        Direction::Bidirectional => true,
    }
}

/// A client announces the profile it wants to play under.
#[derive(Debug, Clone, PartialEq, Eq)]
pub struct Profile {
    pub username: String,
}

/// The server describes the lobby the client has entered.
#[derive(Debug, Clone, PartialEq, Eq)]
pub struct Lobby {
    pub usernames: Vec<String>,
}

/// The server announces that another player joined the lobby.
#[derive(Debug, Clone, PartialEq, Eq)]
pub struct PlayerJoined {
    pub username: String,
}

/// The server announces that a player left the lobby.
#[derive(Debug, Clone, PartialEq, Eq)]
pub struct PlayerLeft;

/// Either peer announces that it is closing the session.
#[derive(Debug, Clone, PartialEq, Eq)]
pub struct Disconnect;

/// An exhaustive tag for the packet types of the catalog.
#[derive(Debug, Clone, Copy, PartialEq, Eq, Structural)]
pub enum PacketKind {
    Profile,
    Lobby,
    PlayerJoined,
    PlayerLeft,
    Disconnect,
}

/// An enum that can represent any packet of the catalog, for storage in
/// generic buffers and for decoding from the wire.
#[derive(Debug, Clone, PartialEq, Eq)]
pub enum AnyPacket {
    Profile(Profile),
    Lobby(Lobby),
    PlayerJoined(PlayerJoined),
    PlayerLeft(PlayerLeft),
    Disconnect(Disconnect),
}

/// The mathematical content of a packet: what it says, free of how the
/// carrying strings are allocated.
pub enum PacketData {
    Profile { username: Seq<char> },
    Lobby { usernames: Seq<Seq<char>> },
    PlayerJoined { username: Seq<char> },
    PlayerLeft,
    Disconnect,
}

impl View for AnyPacket {
    type V = PacketData;

    open spec fn view(&self) -> PacketData {
        match self {
            AnyPacket::Profile(p) => PacketData::Profile { username: p.username@ },
            AnyPacket::Lobby(p) => PacketData::Lobby {
                usernames: p.usernames.deep_view(),
            },
            AnyPacket::PlayerJoined(p) => PacketData::PlayerJoined { username: p.username@ },
            AnyPacket::PlayerLeft(_) => PacketData::PlayerLeft,
            AnyPacket::Disconnect(_) => PacketData::Disconnect,
        }
    }
}

/// The kind of a packet, read off its content.
pub open spec fn kind_of(d: PacketData) -> PacketKind {
    match d {
        PacketData::Profile { .. } => PacketKind::Profile,
        PacketData::Lobby { .. } => PacketKind::Lobby,
        PacketData::PlayerJoined { .. } => PacketKind::PlayerJoined,
        PacketData::PlayerLeft => PacketKind::PlayerLeft,
        PacketData::Disconnect => PacketKind::Disconnect,
    }
}

/// The registration table binding each packet kind to its channel.
pub open spec fn spec_channel_of(k: PacketKind) -> Channel {
    match k {
        PacketKind::Profile => Channel::Ordered,
        PacketKind::Lobby => Channel::Ordered,
        PacketKind::PlayerJoined => Channel::Ordered,
        PacketKind::PlayerLeft => Channel::Ordered,
        PacketKind::Disconnect => Channel::Ordered,
    }
}

/// The registration table binding each packet kind to its legal direction.
pub open spec fn spec_direction_of(k: PacketKind) -> Direction {
    match k {
        PacketKind::Profile => Direction::ClientToServer,
        PacketKind::Lobby => Direction::ServerToClient,
        PacketKind::PlayerJoined => Direction::ServerToClient,
        PacketKind::PlayerLeft => Direction::ServerToClient,
        PacketKind::Disconnect => Direction::Bidirectional,
    }
}

/// The registration table binding each packet kind to its channel.
#[verifier::when_used_as_spec(spec_channel_of)]
pub fn channel_of(k: PacketKind) -> (c: Channel)
    ensures
        c == spec_channel_of(k),
{
    match k {
        PacketKind::Profile => Channel::Ordered,
        PacketKind::Lobby => Channel::Ordered,
        PacketKind::PlayerJoined => Channel::Ordered,
        PacketKind::PlayerLeft => Channel::Ordered,
        PacketKind::Disconnect => Channel::Ordered,
    }
}

/// The registration table binding each packet kind to its legal direction.
#[verifier::when_used_as_spec(spec_direction_of)]
pub fn direction_of(k: PacketKind) -> (d: Direction)
    ensures
        d == spec_direction_of(k),
{
    match k {
        PacketKind::Profile => Direction::ClientToServer,
        PacketKind::Lobby => Direction::ServerToClient,
        PacketKind::PlayerJoined => Direction::ServerToClient,
        PacketKind::PlayerLeft => Direction::ServerToClient,
        PacketKind::Disconnect => Direction::Bidirectional,
    }
}

impl AnyPacket {
    /// The kind of this packet.
    pub fn kind(&self) -> (k: PacketKind)
        ensures
            k == kind_of(self@),
    {
        match self {
            AnyPacket::Profile(_) => PacketKind::Profile,
            AnyPacket::Lobby(_) => PacketKind::Lobby,
            AnyPacket::PlayerJoined(_) => PacketKind::PlayerJoined,
            AnyPacket::PlayerLeft(_) => PacketKind::PlayerLeft,
            AnyPacket::Disconnect(_) => PacketKind::Disconnect,
        }
    }
}

/// A type of the packet catalog, convertible into the exhaustive
/// [`AnyPacket`] representation without loss.
pub trait Packet: Sized {
    /// The content of this packet.
    spec fn data(&self) -> PacketData;

    /// Wrap this packet in the exhaustive representation.
    fn into_any(self) -> (r: AnyPacket)
        ensures
            r@ == self.data(),
    ;
}

impl Packet for Profile {
    open spec fn data(&self) -> PacketData {
        PacketData::Profile { username: self.username@ }
    }

    fn into_any(self) -> (r: AnyPacket)
        ensures
            r@ == self.data(),
    {
        AnyPacket::Profile(self)
    }
}

impl Packet for Lobby {
    open spec fn data(&self) -> PacketData {
        PacketData::Lobby { usernames: self.usernames.deep_view() }
    }

    fn into_any(self) -> (r: AnyPacket)
        ensures
            r@ == self.data(),
    {
        AnyPacket::Lobby(self)
    }
}

impl Packet for PlayerJoined {
    open spec fn data(&self) -> PacketData {
        PacketData::PlayerJoined { username: self.username@ }
    }

    fn into_any(self) -> (r: AnyPacket)
        ensures
            r@ == self.data(),
    {
        AnyPacket::PlayerJoined(self)
    }
}

impl Packet for PlayerLeft {
    open spec fn data(&self) -> PacketData {
        PacketData::PlayerLeft
    }

    fn into_any(self) -> (r: AnyPacket)
        ensures
            r@ == self.data(),
    {
        AnyPacket::PlayerLeft(self)
    }
}

impl Packet for Disconnect {
    open spec fn data(&self) -> PacketData {
        PacketData::Disconnect
    }

    fn into_any(self) -> (r: AnyPacket)
        ensures
            r@ == self.data(),
    {
        AnyPacket::Disconnect(self)
    }
}

/// A buffer for packets of one type that were received from the peer and
/// await handling by the application.
#[derive(Debug)]
pub struct Received<T> {
    pub buffer: Vec<T>,
}

impl<T> Received<T> {
    /// An empty buffer.
    pub fn new() -> (r: Self)
        ensures
            r.buffer@ == Seq::<T>::empty(),
    {
        Received { buffer: Vec::new() }
    }
}

impl<T> Default for Received<T> {
    fn default() -> (r: Self)
        ensures
            r.buffer@ == Seq::<T>::empty(),
    {
        Received { buffer: Vec::new() }
    }
}

} // verus!
