//! Reassembly of inbound bytes into packets.
//!
//! The reliable-ordered channel delivers a single byte stream in arbitrary
//! fragments; the receiver buffers them in a [`ByteQueue`], waits for a
//! whole header, then for the whole payload the header announces, and only
//! then decodes. The unordered channels deliver discrete, pre-framed
//! messages that decode independently of one another.
//!
//! The ordered stream is modelled by [`PacketReceiver::spec_ordered_stream`]:
//! the not-yet-parsed bytes, with a header that was decoded but whose
//! payload has not arrived counted back in at the front. Every poll is
//! specified against that stream.

use vstd::prelude::*;

use std::collections::VecDeque;

use bytes::Bytes;

use crate::byte_queue::ByteQueue;
use crate::chunk::{bytes_len, bytes_range_to_vec, bytes_view, spec_chunk_views};
use crate::codec::{decode_spec, deserialize, deserialize_from, encodable, encoding};
use crate::header::{spec_decode_header, MalformedHeader, OrderedHeader, HEADER_ENCODED_LEN};
use crate::packet::{kind_of, AnyPacket, Channel, PacketData};
use crate::sender::spec_frame_header;
use crate::state::{spec_state_of_byte, spec_state_of_kind, state_of_kind, ConnectionState};
use crate::{Error, ErrorKind};

verus! {

/// The packet a payload decodes to, provided the packet belongs to the
/// state its frame announced; a payload of the wrong kind is as undecodable
/// as a malformed one.
pub open spec fn spec_scoped_decode(body: Seq<u8>, state: ConnectionState) -> Option<PacketData> {
    match decode_spec(body) {
        Some(d) => if spec_state_of_kind(kind_of(d)) == state {
            Some(d)
        } else {
            None
        },
        None => None,
    }
}

/// Split-frame reconstruction: a complete ordered frame decodes to exactly
/// the packet it carries — its header reads back as written and its payload
/// passes the phase-scoped decode — while every proper prefix of the frame
/// is too short for [`PacketReceiver::poll_ordered`]'s contract to yield
/// anything but "no packet yet". So however a frame's bytes are split
/// across deliveries, the polls before the last byte arrives return
/// nothing, and the poll after it returns the one framed packet.
pub proof fn lemma_frame_reconstruction(d: PacketData, i: int)
    requires
        encodable(d),
        0 <= i < spec_frame_header(d).spec_encoding().len() + encoding(d).len(),
    ensures
        ({
            let f = spec_frame_header(d).spec_encoding() + encoding(d);
            &&& f.len() == 3 + encoding(d).len()
            &&& spec_decode_header(f.take(3)) == Ok::<OrderedHeader, MalformedHeader>(
                spec_frame_header(d),
            )
            &&& spec_scoped_decode(
                f.subrange(3, f.len() as int),
                spec_state_of_kind(kind_of(d)),
            ) == Some(d)
            &&& (f.take(i).len() < 3 || f.take(i).len() < 3 + (spec_frame_header(
                d,
            ).length as int))
        }),
{
    let h = spec_frame_header(d);
    let f = h.spec_encoding() + encoding(d);
    crate::header::lemma_header_round_trip(h, MalformedHeader { length: 0, state: 0 });
    assert(f.take(3) =~= h.spec_encoding());
    assert(f.subrange(3, f.len() as int) =~= encoding(d));
    crate::codec::lemma_codec_round_trip(d);
}

/// Resynchronization after a malformed header: in a stream holding one
/// frame with an unrecognized state tag (but a sound length field) followed
/// by anything else, the bad header still announces its payload length, and
/// skipping the header and exactly that many payload bytes lands precisely
/// on the following bytes. With [`PacketReceiver::poll_ordered`]'s
/// contract, polling such a stream reports the invalid tag and leaves the
/// stream at `rest`: one corrupt frame costs exactly itself.
pub proof fn lemma_resynchronization(m: MalformedHeader, junk: Seq<u8>, rest: Seq<u8>)
    requires
        spec_state_of_byte(m.state) is None,
        junk.len() == m.length,
    ensures
        ({
            let s = m.spec_encoding() + junk + rest;
            &&& spec_decode_header(s.take(3)) == Err::<OrderedHeader, MalformedHeader>(m)
            &&& s.skip(3 + m.length as int) == rest
        }),
{
    let s = m.spec_encoding() + junk + rest;
    crate::header::lemma_header_round_trip(
        OrderedHeader { length: 0, state: ConnectionState::Negotiation },
        m,
    );
    assert(s.take(3) =~= m.spec_encoding());
    assert(s.skip(3 + m.length as int) =~= rest);
}

/// A component that receives bytes from the network and reassembles and
/// decodes them into packets, per channel.
#[derive(Debug)]
pub struct PacketReceiver {
    /// Bytes received from the ordered channel, not yet parsed.
    ordered_queue: ByteQueue,
    /// A header already parsed off the ordered stream whose payload has not
    /// fully arrived yet, or that awaits a poller expecting its state.
    pending_header: Option<Result<OrderedHeader, MalformedHeader>>,
    /// Discrete messages received from the unordered-reliable channel.
    unordered_buffer: VecDeque<Bytes>,
    /// Discrete messages received from the unreliable channel.
    unreliable_buffer: VecDeque<Bytes>,
}

impl PacketReceiver {
    /// The receiver's well-formedness: the queue is sound, and a malformed
    /// header is only ever held with a tag that really maps to no state.
    pub closed spec fn wf(&self) -> bool {
        &&& self.ordered_queue.wf()
        &&& self.spec_ordered_stream().len() <= usize::MAX
        &&& match self.pending_header {
            Some(Err(m)) => spec_state_of_byte(m.state) is None,
            _ => true,
        }
    }

    /// The unparsed bytes of the ordered stream, a held-back header
    /// counted in at the front in its encoded form.
    pub closed spec fn spec_ordered_stream(&self) -> Seq<u8> {
        match self.pending_header {
            None => self.ordered_queue@,
            Some(Ok(h)) => h.spec_encoding() + self.ordered_queue@,
            Some(Err(m)) => m.spec_encoding() + self.ordered_queue@,
        }
    }

    /// The undecoded messages buffered for a message channel, oldest
    /// first. The ordered channel buffers a stream, not messages.
    pub closed spec fn spec_messages(&self, c: Channel) -> Seq<Seq<u8>> {
        match c {
            Channel::Ordered => Seq::empty(),
            Channel::Unordered => spec_chunk_views(self.unordered_buffer@),
            Channel::Unreliable => spec_chunk_views(self.unreliable_buffer@),
        }
    }

    /// A receiver with nothing buffered.
    pub fn new() -> (r: Self)
        ensures
            r.wf(),
            r.spec_ordered_stream() == Seq::<u8>::empty(),
            forall|c: Channel| #[trigger] r.spec_messages(c) == Seq::<Seq<u8>>::empty(),
    {
        let r = PacketReceiver {
            ordered_queue: ByteQueue::new(),
            pending_header: None,
            unordered_buffer: VecDeque::new(),
            unreliable_buffer: VecDeque::new(),
        };
        proof {
            assert(spec_chunk_views(Seq::<Bytes>::empty()) =~= Seq::<Seq<u8>>::empty());
            assert forall|c: Channel| #[trigger] r.spec_messages(c) == Seq::<Seq<u8>>::empty() by {
                assert(r.spec_messages(c) =~= Seq::<Seq<u8>>::empty());
            }
        }
        r
    }

    /// How many bytes of the ordered stream are buffered and not yet
    /// consumed as packets.
    pub fn buffered_bytes(&self) -> (n: usize)
        requires
            self.wf(),
        ensures
            n == self.spec_ordered_stream().len(),
    {
        let queued = self.ordered_queue.len();
        match &self.pending_header {
            None => queued,
            Some(_) => queued + HEADER_ENCODED_LEN,
        }
    }

    /// Receive some bytes from the specified channel.
    ///
    /// For the ordered channel, the caller must hand fragments over in
    /// network-receive order, with no gap and no reordering — nothing here
    /// can check that. The message channels carry one complete message per
    /// call and owe no order.
    pub fn receive(&mut self, channel: Channel, bytes: Bytes)
        requires
            old(self).wf(),
            old(self).spec_ordered_stream().len() + bytes_view(bytes).len() <= usize::MAX,
        ensures
            final(self).wf(),
            final(self).spec_ordered_stream() == if channel == Channel::Ordered {
                old(self).spec_ordered_stream() + bytes_view(bytes)
            } else {
                old(self).spec_ordered_stream()
            },
            forall|c: Channel|
                c != Channel::Ordered ==> #[trigger] final(self).spec_messages(c) == if c
                    == channel {
                    old(self).spec_messages(c).push(bytes_view(bytes))
                } else {
                    old(self).spec_messages(c)
                },
    {
        let ghost pre = *self;
        match channel {
            Channel::Ordered => {
                self.ordered_queue.push(bytes);
                proof {
                    assert(self.spec_ordered_stream() =~= pre.spec_ordered_stream()
                        + bytes_view(bytes));
                }
            },
            Channel::Unordered => {
                self.unordered_buffer.push_back(bytes);
                proof {
                    assert(self.spec_messages(Channel::Unordered) =~= pre.spec_messages(
                        Channel::Unordered,
                    ).push(bytes_view(bytes)));
                }
            },
            Channel::Unreliable => {
                self.unreliable_buffer.push_back(bytes);
                proof {
                    assert(self.spec_messages(Channel::Unreliable) =~= pre.spec_messages(
                        Channel::Unreliable,
                    ).push(bytes_view(bytes)));
                }
            },
        }
        proof {
            assert forall|c: Channel|
                c != Channel::Ordered implies #[trigger] self.spec_messages(c) == if c == channel {
                pre.spec_messages(c).push(bytes_view(bytes))
            } else {
                pre.spec_messages(c)
            } by {
                if c != channel {
                    assert(self.spec_messages(c) =~= pre.spec_messages(c));
                }
            }
        }
    }

    /// Poll for one packet reassembled from the ordered stream, on behalf
    /// of a consumer in state `expected`.
    ///
    /// Returns `Ok(Some(_))` when a whole frame for `expected` was decoded,
    /// and `Ok(None)` when no whole frame has arrived — or when the next
    /// frame belongs to a different state: that frame is held, unconsumed,
    /// for a poller of the right state. A frame with an unrecognized state
    /// tag or an undecodable payload is dropped whole — exactly its
    /// announced length is discarded, so the stream stays aligned — and the
    /// error is reported, local to that one frame.
    pub fn poll_ordered(&mut self, expected: ConnectionState) -> (r: Result<
        Option<AnyPacket>,
        Error,
    >)
        requires
            old(self).wf(),
        ensures
            final(self).wf(),
            forall|c: Channel| #[trigger]
                final(self).spec_messages(c) == old(self).spec_messages(c),
            ({
                let s = old(self).spec_ordered_stream();
                if s.len() < 3 {
                    &&& r == Ok::<Option<AnyPacket>, Error>(None)
                    &&& final(self).spec_ordered_stream() == s
                } else {
                    let len = (match spec_decode_header(s.take(3)) {
                        Ok(h) => h.length,
                        Err(m) => m.length,
                    }) as int;
                    if s.len() < 3 + len {
                        &&& r == Ok::<Option<AnyPacket>, Error>(None)
                        &&& final(self).spec_ordered_stream() == s
                    } else {
                        match spec_decode_header(s.take(3)) {
                            Err(m) => {
                                &&& r matches Err(e) && e.kind == ErrorKind::InvalidState(m.state)
                                &&& final(self).spec_ordered_stream() == s.skip(3 + len)
                            },
                            Ok(h) => {
                                if h.state != expected {
                                    &&& r == Ok::<Option<AnyPacket>, Error>(None)
                                    &&& final(self).spec_ordered_stream() == s
                                } else {
                                    match spec_scoped_decode(s.subrange(3, 3 + len), h.state) {
                                        Some(d) => {
                                            &&& r matches Ok(op) && op matches Some(p) && p@ == d
                                            &&& final(self).spec_ordered_stream() == s.skip(
                                                3 + len,
                                            )
                                        },
                                        None => {
                                            &&& r matches Err(e) && e.kind == ErrorKind::Codec
                                            &&& final(self).spec_ordered_stream() == s.skip(
                                                3 + len,
                                            )
                                        },
                                    }
                                }
                            },
                        }
                    }
                }
            }),
    {
        let ghost s = old(self).spec_ordered_stream();
        let header = match self.pending_header {
            Some(h) => {
                self.pending_header = None;
                proof {
                    match h {
                        Ok(hh) => {
                            crate::header::lemma_header_round_trip(
                                hh,
                                MalformedHeader { length: 0, state: 0 },
                            );
                            assert(s.take(3) =~= hh.spec_encoding());
                        },
                        Err(mm) => {
                            crate::header::lemma_header_round_trip(
                                OrderedHeader {
                                    length: 0,
                                    state: ConnectionState::Negotiation,
                                },
                                mm,
                            );
                            assert(s.take(3) =~= mm.spec_encoding());
                        },
                    }
                    assert(self.ordered_queue@ =~= s.skip(3));
                }
                h
            },
            None => {
                if self.ordered_queue.len() < HEADER_ENCODED_LEN {
                    return Ok(None);
                }
                let buf = self.ordered_queue.read_exact(HEADER_ENCODED_LEN);
                proof {
                    crate::header::lemma_header_reencode(s.take(3));
                }
                OrderedHeader::decode_from_slice(buf.as_slice())
            },
        };
        // here: spec_decode_header(s.take(3)) == header, and the queue holds
        // exactly s.skip(3)
        let payload_len = match &header {
            Ok(h) => h.length as usize,
            Err(m) => m.length as usize,
        };
        if self.ordered_queue.len() < payload_len {
            // not all of the payload has arrived: remember the header and
            // leave the stream as it was
            self.pending_header = Some(header);
            proof {
                crate::header::lemma_header_reencode(s.take(3));
                assert(self.spec_ordered_stream() =~= s);
            }
            return Ok(None);
        }
        match header {
            Ok(h) => {
                if h.state != expected {
                    // a valid frame for another state: hold it for the
                    // consumer that expects it
                    self.pending_header = Some(Ok(h));
                    proof {
                        crate::header::lemma_header_reencode(s.take(3));
                        assert(self.spec_ordered_stream() =~= s);
                    }
                    return Ok(None);
                }
                let ghost body = s.subrange(3, 3 + payload_len as int);
                proof {
                    assert(self.ordered_queue@.take(payload_len as int) =~= body);
                    assert(self.ordered_queue@.skip(payload_len as int) =~= s.skip(
                        3 + payload_len as int,
                    ));
                }
                match deserialize_from(&mut self.ordered_queue, payload_len) {
                    Ok(packet) => {
                        let kind = packet.kind();
                        if state_of_kind(kind) == h.state {
                            Ok(Some(packet))
                        } else {
                            // decodes, but to a packet of another phase
                            // than the frame announced
                            Err(Error::codec())
                        }
                    },
                    Err(e) => Err(e),
                }
            },
            Err(m) => {
                // an invalid state tag is unrecoverable for this frame:
                // discard exactly the payload it announced and resume at
                // the next frame boundary
                proof {
                    assert(self.ordered_queue@.skip(payload_len as int) =~= s.skip(
                        3 + payload_len as int,
                    ));
                }
                self.ordered_queue.discard_bytes(payload_len);
                Err(Error::invalid_state(m.state))
            },
        }
    }

    /// Poll one buffered message of a message channel, decoded. Each
    /// message decodes independently: a failure consumes only its own
    /// message and is reported as a discrete error.
    pub fn poll_message(&mut self, channel: Channel) -> (r: Option<Result<AnyPacket, Error>>)
        requires
            old(self).wf(),
            channel != Channel::Ordered,
        ensures
            final(self).wf(),
            final(self).spec_ordered_stream() == old(self).spec_ordered_stream(),
            forall|c: Channel|
                c != channel ==> #[trigger] final(self).spec_messages(c)
                    == old(self).spec_messages(c),
            ({
                let ms = old(self).spec_messages(channel);
                if ms.len() == 0 {
                    &&& r is None
                    &&& final(self).spec_messages(channel) == ms
                } else {
                    &&& final(self).spec_messages(channel) == ms.drop_first()
                    &&& match decode_spec(ms[0]) {
                        Some(d) => r matches Some(q) && q matches Ok(p) && p@ == d,
                        None => r matches Some(q) && q matches Err(e) && e.kind
                            == ErrorKind::Codec,
                    }
                }
            }),
    {
        let ghost pre = *self;
        let next = match channel {
            Channel::Ordered => None,
            Channel::Unordered => self.unordered_buffer.pop_front(),
            Channel::Unreliable => self.unreliable_buffer.pop_front(),
        };
        proof {
            assert forall|c: Channel|
                c != channel implies #[trigger] self.spec_messages(c) == pre.spec_messages(
                c,
            ) by {
                assert(self.spec_messages(c) =~= pre.spec_messages(c));
            }
        }
        match next {
            None => {
                proof {
                    assert(self.spec_messages(channel) =~= pre.spec_messages(channel));
                }
                None
            },
            Some(message) => {
                proof {
                    assert(self.spec_messages(channel) =~= pre.spec_messages(
                        channel,
                    ).drop_first());
                    assert(bytes_view(message) == pre.spec_messages(channel)[0]);
                }
                let n = bytes_len(&message);
                let buf = bytes_range_to_vec(&message, 0, n);
                proof {
                    assert(buf@ =~= bytes_view(message));
                }
                Some(deserialize(buf.as_slice()))
            },
        }
    }
}

} // verus!
