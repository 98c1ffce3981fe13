//! A connection to a single peer: one packet sender, one packet receiver,
//! and the current negotiation phase, advanced in lock step with the
//! packets that pass through them.
//!
//! Every serialize and every successful deserialize of a packet of the
//! current phase is recorded by the phase's bookkeeping; when that
//! bookkeeping is complete the phase value is swapped wholesale for the
//! next one, and the transition is queued for the application to observe.
//! An inbound frame of a different phase is held back, unconsumed, until
//! its phase is the current one.

use vstd::prelude::*;

use bytes::Bytes;

use crate::chunk::{bytes_view, spec_chunk_views};
use crate::codec::{encodable, serialized_size};
use crate::packet::{kind_of, spec_channel_of, spec_direction_of, spec_is_outbound, AnyPacket,
    Channel, Packet, PacketKind};
use crate::receiver::{spec_scoped_decode, PacketReceiver};
use crate::sender::{wire_frame, PacketSender, Transmit};
use crate::header::spec_decode_header;
use crate::state::{spec_state_of_kind, ConnectionState, ConnectionStatePhase, LobbyState};
use crate::{Error, ErrorKind};

verus! {

/// The phase after its bookkeeping records a packet of kind `k` and any
/// pending transition is taken: the only transition of the minimal model
/// swaps a completed handshake for a fresh lobby phase.
pub open spec fn spec_after_packet(p: ConnectionStatePhase, k: PacketKind) -> ConnectionStatePhase {
    let m = p.spec_mark(k);
    if m.spec_next() is Some {
        ConnectionStatePhase::Lobby(LobbyState)
    } else {
        m
    }
}

/// The state change recording a packet of kind `k` triggers, if any.
pub open spec fn spec_change_after(p: ConnectionStatePhase, k: PacketKind) -> Option<
    ConnectionState,
> {
    p.spec_mark(k).spec_next()
}

/// The channel and payload of one queued transmission.
pub open spec fn spec_transmit_view(t: Transmit) -> (Channel, Seq<u8>) {
    (t.channel, bytes_view(t.bytes))
}

/// The channels and payloads of a sequence of queued transmissions.
pub open spec fn spec_transmit_views(ts: Seq<Transmit>) -> Seq<(Channel, Seq<u8>)> {
    ts.map_values(|t: Transmit| spec_transmit_view(t))
}

/// A sequence of payloads, each tagged with the one channel they all
/// travel on.
pub open spec fn spec_tagged(ms: Seq<Seq<u8>>, c: Channel) -> Seq<(Channel, Seq<u8>)> {
    ms.map_values(|m: Seq<u8>| (c, m))
}

/// A connection to a single peer, owned by this side of the session.
#[derive(Debug)]
pub struct Connection {
    sender: PacketSender,
    receiver: PacketReceiver,
    phase: ConnectionStatePhase,
    queued_state_change: Option<ConnectionState>,
}

impl Connection {
    /// The connection's well-formedness, established by [`Connection::new`]
    /// and preserved by every method.
    pub closed spec fn wf(&self) -> bool {
        self.receiver.wf()
    }

    /// The peer this connection belongs to (this side, not the remote).
    pub closed spec fn spec_peer(&self) -> crate::packet::Peer {
        self.sender.spec_peer()
    }

    /// The current phase, with its bookkeeping.
    pub closed spec fn spec_phase(&self) -> ConnectionStatePhase {
        self.phase
    }

    /// The current negotiation state.
    pub open spec fn spec_state(&self) -> ConnectionState {
        self.spec_phase().spec_state()
    }

    /// The frames queued for the transport on channel `c`, oldest first.
    pub closed spec fn spec_outbound(&self, c: Channel) -> Seq<Seq<u8>> {
        self.sender.spec_buffered(c)
    }

    /// The unparsed bytes of the inbound ordered stream.
    pub closed spec fn spec_ordered_stream(&self) -> Seq<u8> {
        self.receiver.spec_ordered_stream()
    }

    /// The undecoded inbound messages of a message channel, oldest first.
    pub closed spec fn spec_messages(&self, c: Channel) -> Seq<Seq<u8>> {
        self.receiver.spec_messages(c)
    }

    /// The state transition computed but not yet observed by the
    /// application, if any.
    pub closed spec fn spec_queued_change(&self) -> Option<ConnectionState> {
        self.queued_state_change
    }

    /// A fresh connection for peer `peer`: in the handshake phase with
    /// nothing handled, nothing buffered and no transition queued.
    pub fn new(peer: crate::packet::Peer) -> (r: Connection)
        ensures
            r.wf(),
            r.spec_peer() == peer,
            r.spec_state() == ConnectionState::Handshake,
            r.spec_phase() matches ConnectionStatePhase::Handshake(h) && forall|k: PacketKind|
                !h.spec_handled(k),
            forall|c: Channel| #[trigger] r.spec_outbound(c) == Seq::<Seq<u8>>::empty(),
            r.spec_ordered_stream() == Seq::<u8>::empty(),
            forall|c: Channel| #[trigger] r.spec_messages(c) == Seq::<Seq<u8>>::empty(),
            r.spec_queued_change() is None,
    {
        Connection {
            sender: PacketSender::new(peer),
            receiver: PacketReceiver::new(),
            phase: ConnectionStatePhase::initial(),
            queued_state_change: None,
        }
    }

    /// The current negotiation state.
    pub fn state(&self) -> (s: ConnectionState)
        ensures
            s == self.spec_state(),
    {
        self.phase.state()
    }

    /// Takes the transition the phase is ready for, if any: the new phase
    /// value replaces the old one wholesale and the change is queued.
    fn poll_transition(&mut self)
        requires
            old(self).wf(),
        ensures
            final(self).wf(),
            final(self).sender == old(self).sender,
            final(self).receiver == old(self).receiver,
            final(self).spec_phase() == if old(self).spec_phase().spec_next() is Some {
                ConnectionStatePhase::Lobby(LobbyState)
            } else {
                old(self).spec_phase()
            },
            final(self).spec_queued_change() == match old(self).spec_phase().spec_next() {
                Some(st) => Some(st),
                None => old(self).spec_queued_change(),
            },
    {
        if let Some(next) = self.phase.poll_state_change() {
            self.queued_state_change = Some(next);
            match next {
                ConnectionState::Lobby => {
                    self.phase = ConnectionStatePhase::Lobby(LobbyState);
                },
                _ => {
                    proof {
                        assert(false);
                    }
                },
            }
        }
    }

    /// Send `packet` to the peer: serialize and frame it, record it with
    /// the current phase's bookkeeping when it is a packet of that phase,
    /// take any transition that completes, and queue the frame for the
    /// transport. A packet of another phase is still sent — its frame
    /// carries its own phase's tag, and the remote receiver holds it until
    /// that phase is current there — it just leaves the local bookkeeping
    /// untouched.
    ///
    /// A packet that does not fit the wire format is rejected whole:
    /// nothing is queued and nothing is recorded.
    pub fn handle_send<T: Packet>(&mut self, packet: T) -> (r: Result<(), Error>)
        requires
            old(self).wf(),
            spec_is_outbound(
                spec_direction_of(kind_of(packet.data())),
                old(self).spec_peer(),
            ),
        ensures
            final(self).wf(),
            final(self).spec_peer() == old(self).spec_peer(),
            final(self).spec_ordered_stream() == old(self).spec_ordered_stream(),
            forall|c: Channel| #[trigger]
                final(self).spec_messages(c) == old(self).spec_messages(c),
            ({
                let d = packet.data();
                let k = kind_of(d);
                match r {
                    Ok(()) => {
                        &&& encodable(d)
                        &&& if spec_state_of_kind(k) == old(self).spec_state() {
                            final(self).spec_phase() == spec_after_packet(
                                old(self).spec_phase(),
                                k,
                            ) && final(self).spec_queued_change() == match spec_change_after(
                                old(self).spec_phase(),
                                k,
                            ) {
                                Some(st) => Some(st),
                                None => old(self).spec_queued_change(),
                            }
                        } else {
                            final(self).spec_phase() == old(self).spec_phase() && final(self).spec_queued_change() == old(self).spec_queued_change()
                        }
                        &&& final(self).spec_outbound(spec_channel_of(k)) == old(
                            self,
                        ).spec_outbound(spec_channel_of(k)).push(wire_frame(d))
                        &&& forall|c: Channel|
                            c != spec_channel_of(k)
                                ==> #[trigger] final(self).spec_outbound(c)
                                == old(self).spec_outbound(c)
                    },
                    Err(e) => {
                        &&& !encodable(d)
                        &&& e.kind == ErrorKind::PacketTooLarge
                        &&& forall|c: Channel| #[trigger]
                            final(self).spec_outbound(c) == old(self).spec_outbound(c)
                        &&& final(self).spec_phase() == old(self).spec_phase()
                        &&& final(self).spec_queued_change() == old(self).spec_queued_change()
                    },
                }
            }),
    {
        let packet = packet.into_any();
        // serialization is checked first, so a too-large packet fails
        // before any phase bookkeeping happens
        match serialized_size(&packet) {
            Ok(_) => {},
            Err(e) => {
                return Err(e);
            },
        }
        let kind = packet.kind();
        if crate::state::state_of_kind(kind) == self.phase.state() {
            match self.phase.handle_packet_serialize(kind) {
                Ok(()) => {},
                Err(_) => {
                    proof {
                        assert(false);
                    }
                },
            }
            self.poll_transition();
        }
        match self.sender.send_any(packet) {
            Ok(()) => Ok(()),
            Err(e) => {
                proof {
                    assert(false);
                }
                Err(e)
            },
        }
    }

    /// How many bytes of the inbound ordered stream are buffered and not
    /// yet consumed as packets.
    pub fn inbound_buffered(&self) -> (n: usize)
        requires
            self.wf(),
        ensures
            n == self.spec_ordered_stream().len(),
    {
        self.receiver.buffered_bytes()
    }

    /// Hand the connection some bytes the transport received on `channel`.
    /// For the ordered channel the calls must follow network-receive order;
    /// the message channels carry one complete message per call.
    pub fn handle_receive(&mut self, channel: Channel, bytes: Bytes)
        requires
            old(self).wf(),
            old(self).spec_ordered_stream().len() + bytes_view(bytes).len() <= usize::MAX,
        ensures
            final(self).wf(),
            final(self).spec_peer() == old(self).spec_peer(),
            final(self).spec_phase() == old(self).spec_phase(),
            final(self).spec_queued_change() == old(self).spec_queued_change(),
            forall|c: Channel| #[trigger]
                final(self).spec_outbound(c) == old(self).spec_outbound(c),
            final(self).spec_ordered_stream() == if channel == Channel::Ordered {
                old(self).spec_ordered_stream() + bytes_view(bytes)
            } else {
                old(self).spec_ordered_stream()
            },
            forall|c: Channel|
                c != Channel::Ordered ==> #[trigger] final(self).spec_messages(c) == if c
                    == channel {
                    old(self).spec_messages(c).push(bytes_view(bytes))
                } else {
                    old(self).spec_messages(c)
                },
    {
        self.receiver.receive(channel, bytes);
    }

    /// Move every frame of one outbound bucket into `out` as transmissions
    /// tagged with `channel`.
    fn drain_channel(&mut self, out: &mut Vec<Transmit>, channel: Channel)
        requires
            old(self).wf(),
        ensures
            final(self).wf(),
            final(self).receiver == old(self).receiver,
            final(self).phase == old(self).phase,
            final(self).queued_state_change == old(self).queued_state_change,
            final(self).spec_peer() == old(self).spec_peer(),
            final(self).spec_outbound(channel) == Seq::<Seq<u8>>::empty(),
            forall|c: Channel|
                c != channel ==> #[trigger] final(self).spec_outbound(c)
                    == old(self).spec_outbound(c),
            spec_transmit_views(final(out)@) == spec_transmit_views(old(out)@) + spec_tagged(
                old(self).spec_outbound(channel),
                channel,
            ),
    {
        let mut frames = self.sender.take_bytes(channel);
        let ghost all = spec_chunk_views(frames@);
        let ghost base = spec_transmit_views(out@);
        let frame_count = frames.len();
        proof {
            assert(all.len() == frame_count as int);
            assert(base + spec_tagged(all, channel).take(0int) =~= base);
            assert(all.skip(0int) =~= all);
        }
        let mut consumed: usize = 0;
        while frames.len() > 0
            invariant
                consumed + frames@.len() == all.len(),
                all.len() <= usize::MAX,
                spec_chunk_views(frames@) == all.skip(consumed as int),
                spec_transmit_views(out@) == base + spec_tagged(all, channel).take(
                    consumed as int,
                ),
            decreases frames@.len(),
        {
            let ghost frames_pre = frames@;
            let ghost out_pre = out@;
            let ghost c_old = consumed as int;
            let b = frames.remove(0);
            let ghost bv = bytes_view(b);
            out.push(Transmit { bytes: b, channel });
            consumed = consumed + 1;
            proof {
                assert(frames@ =~= frames_pre.drop_first());
                assert forall|j: int|
                    0 <= j < frames@.len() implies spec_chunk_views(frames@)[j] == all.skip(
                    consumed as int,
                )[j] by {
                    assert(spec_chunk_views(frames_pre)[j + 1] == bytes_view(
                        frames_pre[j + 1],
                    ));
                    assert(spec_chunk_views(frames_pre)[j + 1] == all.skip(c_old)[j + 1]);
                }
                assert(spec_chunk_views(frames@) =~= all.skip(consumed as int));
                let tagged = spec_tagged(all, channel);
                assert(spec_transmit_views(out_pre).len() == out_pre.len());
                assert((base + tagged.take(c_old)).len() == base.len() + c_old);
                assert(out_pre.len() == base.len() + c_old);
                assert forall|j: int|
                    0 <= j < out@.len() implies spec_transmit_views(out@)[j] == (base
                    + tagged.take(consumed as int))[j] by {
                    assert(spec_transmit_views(out@)[j] == spec_transmit_view(out@[j]));
                    if j < out_pre.len() {
                        assert(out@[j] == out_pre[j]);
                        assert(spec_transmit_views(out_pre)[j] == spec_transmit_view(
                            out_pre[j],
                        ));
                        assert(spec_transmit_views(out_pre)[j] == (base + tagged.take(c_old))[j]);
                        assert((base + tagged.take(c_old))[j] == (base + tagged.take(
                            consumed as int,
                        ))[j]);
                    } else {
                        assert(j == out_pre.len());
                        assert(bytes_view(out@[j].bytes) == bv && out@[j].channel == channel);
                        assert(spec_chunk_views(frames_pre)[0] == bytes_view(frames_pre[0]));
                        assert(spec_chunk_views(frames_pre)[0] == all.skip(c_old)[0]);
                        assert(bv == all[c_old]);
                        assert(tagged[c_old] == (channel, all[c_old]));
                        assert((base + tagged.take(consumed as int))[j] == tagged.take(
                            consumed as int,
                        )[c_old]);
                    }
                }
                assert(spec_transmit_views(out@) =~= base + tagged.take(consumed as int));
            }
        }
        proof {
            assert(spec_tagged(all, channel).take(consumed as int) =~= spec_tagged(
                all,
                channel,
            ));
            assert(all =~= old(self).spec_outbound(channel));
        }
    }

    /// Take every queued outbound transmission for the transport to push
    /// out: the ordered channel's frames first in send order, then the
    /// unordered channel's, then the unreliable channel's.
    pub fn poll_send(&mut self) -> (v: Vec<Transmit>)
        requires
            old(self).wf(),
        ensures
            final(self).wf(),
            final(self).spec_peer() == old(self).spec_peer(),
            final(self).spec_phase() == old(self).spec_phase(),
            final(self).spec_queued_change() == old(self).spec_queued_change(),
            final(self).spec_ordered_stream() == old(self).spec_ordered_stream(),
            forall|c: Channel| #[trigger]
                final(self).spec_messages(c) == old(self).spec_messages(c),
            forall|c: Channel| #[trigger] final(self).spec_outbound(c) == Seq::<Seq<u8>>::empty(),
            spec_transmit_views(v@) == spec_tagged(
                old(self).spec_outbound(Channel::Ordered),
                Channel::Ordered,
            ) + spec_tagged(old(self).spec_outbound(Channel::Unordered), Channel::Unordered)
                + spec_tagged(old(self).spec_outbound(Channel::Unreliable), Channel::Unreliable),
    {
        let mut out: Vec<Transmit> = Vec::new();
        proof {
            assert(spec_transmit_views(out@) =~= Seq::<(Channel, Seq<u8>)>::empty());
        }
        self.drain_channel(&mut out, Channel::Ordered);
        self.drain_channel(&mut out, Channel::Unordered);
        self.drain_channel(&mut out, Channel::Unreliable);
        proof {
            let a = spec_tagged(old(self).spec_outbound(Channel::Ordered), Channel::Ordered);
            let b = spec_tagged(old(self).spec_outbound(Channel::Unordered), Channel::Unordered);
            let c = spec_tagged(
                old(self).spec_outbound(Channel::Unreliable),
                Channel::Unreliable,
            );
            assert(spec_transmit_views(out@) =~= a + b + c);
            assert forall|c2: Channel| #[trigger]
                self.spec_outbound(c2) == Seq::<Seq<u8>>::empty() by {
                if c2 == Channel::Ordered {
                } else if c2 == Channel::Unordered {
                } else {
                    assert(c2 == Channel::Unreliable);
                }
            }
        }
        out
    }

    /// Poll for one packet reassembled from the inbound ordered stream on
    /// behalf of the current phase. A decoded packet is recorded with the
    /// phase's bookkeeping, and a transition that completes is taken and
    /// queued. A frame for a different phase is held back untouched; a
    /// malformed or undecodable frame is dropped whole, the error local to
    /// that one frame.
    pub fn poll_receive(&mut self) -> (r: Result<Option<AnyPacket>, Error>)
        requires
            old(self).wf(),
        ensures
            final(self).wf(),
            final(self).spec_peer() == old(self).spec_peer(),
            forall|c: Channel| #[trigger]
                final(self).spec_outbound(c) == old(self).spec_outbound(c),
            forall|c: Channel| #[trigger]
                final(self).spec_messages(c) == old(self).spec_messages(c),
            ({
                let s = old(self).spec_ordered_stream();
                let unchanged_phase = final(self).spec_phase() == old(self).spec_phase()
                    && final(self).spec_queued_change() == old(self).spec_queued_change();
                if s.len() < 3 {
                    &&& r == Ok::<Option<AnyPacket>, Error>(None)
                    &&& final(self).spec_ordered_stream() == s
                    &&& unchanged_phase
                } else {
                    let len = (match spec_decode_header(s.take(3)) {
                        Ok(h) => h.length,
                        Err(m) => m.length,
                    }) as int;
                    if s.len() < 3 + len {
                        &&& r == Ok::<Option<AnyPacket>, Error>(None)
                        &&& final(self).spec_ordered_stream() == s
                        &&& unchanged_phase
                    } else {
                        match spec_decode_header(s.take(3)) {
                            Err(m) => {
                                &&& r matches Err(e) && e.kind == ErrorKind::InvalidState(m.state)
                                &&& final(self).spec_ordered_stream() == s.skip(3 + len)
                                &&& unchanged_phase
                            },
                            Ok(h) => {
                                if h.state != old(self).spec_state() {
                                    &&& r == Ok::<Option<AnyPacket>, Error>(None)
                                    &&& final(self).spec_ordered_stream() == s
                                    &&& unchanged_phase
                                } else {
                                    match spec_scoped_decode(s.subrange(3, 3 + len), h.state) {
                                        Some(d) => {
                                            &&& r matches Ok(op) && op matches Some(p) && p@ == d
                                            &&& final(self).spec_ordered_stream() == s.skip(
                                                3 + len,
                                            )
                                            &&& final(self).spec_phase() == spec_after_packet(
                                                old(self).spec_phase(),
                                                kind_of(d),
                                            )
                                            &&& final(self).spec_queued_change()
                                                == match spec_change_after(
                                                old(self).spec_phase(),
                                                kind_of(d),
                                            ) {
                                                Some(st) => Some(st),
                                                None => old(self).spec_queued_change(),
                                            }
                                        },
                                        None => {
                                            &&& r matches Err(e) && e.kind == ErrorKind::Codec
                                            &&& final(self).spec_ordered_stream() == s.skip(
                                                3 + len,
                                            )
                                            &&& unchanged_phase
                                        },
                                    }
                                }
                            },
                        }
                    }
                }
            }),
    {
        let expected = self.phase.state();
        let polled = self.receiver.poll_ordered(expected);
        match polled {
            Ok(Some(packet)) => {
                let kind = packet.kind();
                match self.phase.handle_packet_deserialize(kind) {
                    Ok(()) => {},
                    Err(_) => {
                        proof {
                            assert(false);
                        }
                    },
                }
                self.poll_transition();
                Ok(Some(packet))
            },
            Ok(None) => Ok(None),
            Err(e) => Err(e),
        }
    }

    /// Poll one buffered message of a message channel, decoded. Messages
    /// are not phase-scoped: each decodes independently, and a failure
    /// consumes only its own message.
    pub fn poll_receive_message(&mut self, channel: Channel) -> (r: Option<
        Result<AnyPacket, Error>,
    >)
        requires
            old(self).wf(),
            channel != Channel::Ordered,
        ensures
            final(self).wf(),
            final(self).spec_peer() == old(self).spec_peer(),
            final(self).spec_phase() == old(self).spec_phase(),
            final(self).spec_queued_change() == old(self).spec_queued_change(),
            forall|c: Channel| #[trigger]
                final(self).spec_outbound(c) == old(self).spec_outbound(c),
            final(self).spec_ordered_stream() == old(self).spec_ordered_stream(),
            forall|c: Channel|
                c != channel ==> #[trigger] final(self).spec_messages(c)
                    == old(self).spec_messages(c),
            ({
                let ms = old(self).spec_messages(channel);
                if ms.len() == 0 {
                    &&& r is None
                    &&& final(self).spec_messages(channel) == ms
                } else {
                    &&& final(self).spec_messages(channel) == ms.drop_first()
                    &&& match crate::codec::decode_spec(ms[0]) {
                        Some(d) => r matches Some(q) && q matches Ok(p) && p@ == d,
                        None => r matches Some(q) && q matches Err(e) && e.kind
                            == ErrorKind::Codec,
                    }
                }
            }),
    {
        self.receiver.poll_message(channel)
    }

    /// Take the state transition computed by the last packet that
    /// completed a phase, if the application has not observed it yet.
    pub fn poll_state_change(&mut self) -> (r: Option<ConnectionState>)
        requires
            old(self).wf(),
        ensures
            final(self).wf(),
            final(self).spec_peer() == old(self).spec_peer(),
            final(self).spec_phase() == old(self).spec_phase(),
            forall|c: Channel| #[trigger]
                final(self).spec_outbound(c) == old(self).spec_outbound(c),
            final(self).spec_ordered_stream() == old(self).spec_ordered_stream(),
            forall|c: Channel| #[trigger]
                final(self).spec_messages(c) == old(self).spec_messages(c),
            r == old(self).spec_queued_change(),
            final(self).spec_queued_change() is None,
    {
        let r = self.queued_state_change;
        self.queued_state_change = None;
        r
    }
}

} // verus!
