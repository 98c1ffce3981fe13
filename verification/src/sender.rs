//! Buffering of outbound packets: each packet is serialized, framed for its
//! channel, and queued in that channel's bucket until the transport drains
//! it. No backpressure is applied here; pacing is the transport's business.

use vstd::prelude::*;

use bytes::Bytes;

use crate::chunk::{bytes_from_vec, bytes_view, spec_chunk_views};
use crate::codec::{encodable, encoding, serialize_into, serialized_size};
use crate::header::OrderedHeader;
use crate::packet::{kind_of, spec_channel_of, spec_direction_of, spec_is_outbound, AnyPacket,
    Channel, Packet, PacketData, Peer};
use crate::state::spec_state_of_kind;
use crate::{Error, ErrorKind};

verus! {

/// Some bytes to be transmitted to the peer via a certain channel.
#[derive(Debug)]
pub struct Transmit {
    pub bytes: Bytes,
    pub channel: Channel,
}

/// The frame header written in front of a packet on the ordered channel:
/// the exact encoded-payload length, and the state the packet belongs to.
pub open spec fn spec_frame_header(d: PacketData) -> OrderedHeader {
    OrderedHeader {
        length: encoding(d).len() as u16,
        state: spec_state_of_kind(kind_of(d)),
    }
}

/// The bytes a packet occupies on the wire: on the ordered channel its
/// header then its encoding; on the message channels the encoding alone,
/// since the transport already delivers discrete messages there.
pub open spec fn wire_frame(d: PacketData) -> Seq<u8> {
    if spec_channel_of(kind_of(d)) == Channel::Ordered {
        spec_frame_header(d).spec_encoding() + encoding(d)
    } else {
        encoding(d)
    }
}

/// A component for serializing packets and queueing their bytes for the
/// transport, one bucket per channel.
#[derive(Debug)]
pub struct PacketSender {
    ordered_buffer: Vec<Bytes>,
    unordered_buffer: Vec<Bytes>,
    unreliable_buffer: Vec<Bytes>,
    peer: Peer,
}

impl PacketSender {
    /// The peer this sender sends on behalf of (this side, not the remote).
    pub closed spec fn spec_peer(&self) -> Peer {
        self.peer
    }

    /// The frames queued for channel `c`, oldest first.
    pub closed spec fn spec_buffered(&self, c: Channel) -> Seq<Seq<u8>> {
        match c {
            Channel::Ordered => spec_chunk_views(self.ordered_buffer@),
            Channel::Unordered => spec_chunk_views(self.unordered_buffer@),
            Channel::Unreliable => spec_chunk_views(self.unreliable_buffer@),
        }
    }

    /// A sender for peer `peer` with every bucket empty.
    pub fn new(peer: Peer) -> (s: Self)
        ensures
            s.spec_peer() == peer,
            forall|c: Channel| #[trigger] s.spec_buffered(c) == Seq::<Seq<u8>>::empty(),
    {
        let s = PacketSender {
            ordered_buffer: Vec::new(),
            unordered_buffer: Vec::new(),
            unreliable_buffer: Vec::new(),
            peer,
        };
        proof {
            assert(spec_chunk_views(Seq::<Bytes>::empty()) =~= Seq::<Seq<u8>>::empty());
            assert forall|c: Channel| #[trigger] s.spec_buffered(c) == Seq::<Seq<u8>>::empty() by {
                assert(s.spec_buffered(c) =~= Seq::<Seq<u8>>::empty());
            }
        }
        s
    }

    /// The peer this sender sends on behalf of.
    pub fn peer(&self) -> (p: Peer)
        ensures
            p == self.spec_peer(),
    {
        self.peer
    }

    /// Serialize `packet`, frame it for its channel, and queue the frame in
    /// that channel's bucket. Only packets whose direction is outbound for
    /// this sender's peer may be sent — the registration table decides.
    pub fn send<T: Packet>(&mut self, packet: T) -> (r: Result<(), Error>)
        requires
            spec_is_outbound(
                spec_direction_of(kind_of(packet.data())),
                old(self).spec_peer(),
            ),
        ensures
            final(self).spec_peer() == old(self).spec_peer(),
            match r {
                Ok(()) => {
                    &&& encodable(packet.data())
                    &&& final(self).spec_buffered(spec_channel_of(kind_of(packet.data())))
                        == old(self).spec_buffered(
                        spec_channel_of(kind_of(packet.data())),
                    ).push(wire_frame(packet.data()))
                    &&& forall|c: Channel|
                        c != spec_channel_of(kind_of(packet.data()))
                            ==> #[trigger] final(self).spec_buffered(c)
                            == old(self).spec_buffered(c)
                },
                Err(e) => {
                    &&& !encodable(packet.data())
                    &&& e.kind == ErrorKind::PacketTooLarge
                    &&& forall|c: Channel| #[trigger]
                        final(self).spec_buffered(c) == old(self).spec_buffered(c)
                },
            },
    {
        self.send_any(packet.into_any())
    }

    /// [`Self::send`], for a packet already in the exhaustive
    /// representation.
    pub fn send_any(&mut self, packet: AnyPacket) -> (r: Result<(), Error>)
        requires
            spec_is_outbound(spec_direction_of(kind_of(packet@)), old(self).spec_peer()),
        ensures
            final(self).spec_peer() == old(self).spec_peer(),
            match r {
                Ok(()) => {
                    &&& encodable(packet@)
                    &&& final(self).spec_buffered(spec_channel_of(kind_of(packet@)))
                        == old(self).spec_buffered(
                        spec_channel_of(kind_of(packet@)),
                    ).push(wire_frame(packet@))
                    &&& forall|c: Channel|
                        c != spec_channel_of(kind_of(packet@))
                            ==> #[trigger] final(self).spec_buffered(c)
                            == old(self).spec_buffered(c)
                },
                Err(e) => {
                    &&& !encodable(packet@)
                    &&& e.kind == ErrorKind::PacketTooLarge
                    &&& forall|c: Channel| #[trigger]
                        final(self).spec_buffered(c) == old(self).spec_buffered(c)
                },
            },
    {
        let ghost d = packet@;
        let length = match serialized_size(&packet) {
            Ok(n) => n,
            Err(e) => {
                return Err(e);
            },
        };
        let kind = packet.kind();
        let channel = crate::packet::channel_of(kind);
        let mut bytes: Vec<u8> = Vec::new();
        if matches!(channel, Channel::Ordered) {
            let header = OrderedHeader {
                length: length as u16,
                state: crate::state::state_of_kind(kind),
            };
            header.encode_into(&mut bytes);
        }
        match serialize_into(&mut bytes, &packet) {
            Ok(()) => {},
            Err(e) => {
                proof {
                    assert(false);
                }
                return Err(e);
            },
        }
        proof {
            assert(bytes@ =~= wire_frame(d));
        }
        let b = bytes_from_vec(bytes);
        let ghost pre = *self;
        match channel {
            Channel::Ordered => self.ordered_buffer.push(b),
            Channel::Unordered => self.unordered_buffer.push(b),
            Channel::Unreliable => self.unreliable_buffer.push(b),
        }
        proof {
            assert(self.spec_buffered(channel) =~= pre.spec_buffered(channel).push(
                wire_frame(d),
            ));
            assert forall|c: Channel|
                c != channel implies #[trigger] self.spec_buffered(c) == pre.spec_buffered(
                c,
            ) by {
                assert(self.spec_buffered(c) =~= pre.spec_buffered(c));
            }
        }
        Ok(())
    }

    /// Atomically empties channel `channel`'s bucket and returns its queued
    /// frames, oldest first, for the transport to push out.
    pub fn take_bytes(&mut self, channel: Channel) -> (v: Vec<Bytes>)
        ensures
            final(self).spec_peer() == old(self).spec_peer(),
            spec_chunk_views(v@) == old(self).spec_buffered(channel),
            final(self).spec_buffered(channel) == Seq::<Seq<u8>>::empty(),
            forall|c: Channel|
                c != channel ==> #[trigger] final(self).spec_buffered(c)
                    == old(self).spec_buffered(c),
    {
        let mut taken: Vec<Bytes> = Vec::new();
        match channel {
            Channel::Ordered => std::mem::swap(&mut taken, &mut self.ordered_buffer),
            Channel::Unordered => std::mem::swap(&mut taken, &mut self.unordered_buffer),
            Channel::Unreliable => std::mem::swap(&mut taken, &mut self.unreliable_buffer),
        }
        proof {
            assert(spec_chunk_views(Seq::<Bytes>::empty()) =~= Seq::<Seq<u8>>::empty());
            assert(self.spec_buffered(channel) =~= Seq::<Seq<u8>>::empty());
            assert forall|c: Channel|
                c != channel implies #[trigger] self.spec_buffered(c)
                == old(self).spec_buffered(c) by {
                assert(self.spec_buffered(c) =~= old(self).spec_buffered(c));
            }
        }
        taken
    }
}

} // verus!
