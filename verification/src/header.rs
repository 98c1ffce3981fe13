//! The frame header that prefixes every packet on the reliable-ordered
//! stream: a two-byte little-endian payload length and a one-byte state
//! tag. Knowing the exact length lets the receiver wait for a whole
//! payload before attempting a decode; the tag says which connection phase
//! the payload belongs to.

use vstd::prelude::*;

use crate::codec::{u16_le_bytes, u16_of_le};
use crate::state::{spec_state_byte, spec_state_of_byte, ConnectionState};

verus! {

/// The number of bytes every encoded header occupies.
pub const HEADER_ENCODED_LEN: usize = 3;

/// A decoded frame header of the reliable-ordered stream.
#[derive(Debug, Clone, Copy, PartialEq, Eq, Structural)]
pub struct OrderedHeader {
    /// The exact byte count of the encoded payload that follows the
    /// header (the header itself excluded).
    pub length: u16,
    /// The connection state the payload belongs to.
    pub state: ConnectionState,
}

/// A frame header whose state tag maps to no connection state. It still
/// carries the decoded length, so the caller can discard exactly that many
/// payload bytes: one corrupt header must not shift the alignment of every
/// following header.
#[derive(Debug, Clone, Copy, PartialEq, Eq, Structural)]
pub struct MalformedHeader {
    /// The payload length the corrupt frame announced.
    pub length: u16,
    /// The unrecognized state tag.
    pub state: u8,
}

impl OrderedHeader {
    /// The three bytes this header encodes to.
    pub open spec fn spec_encoding(&self) -> Seq<u8> {
        u16_le_bytes(self.length as nat) + seq![spec_state_byte(self.state)]
    }
}

impl MalformedHeader {
    /// The three bytes this header was decoded from.
    pub open spec fn spec_encoding(&self) -> Seq<u8> {
        u16_le_bytes(self.length as nat) + seq![self.state]
    }
}

/// The header three bytes decode to: the length is a plain integer and is
/// never malformed by itself; only an unrecognized state tag makes the
/// header malformed.
pub open spec fn spec_decode_header(b: Seq<u8>) -> Result<OrderedHeader, MalformedHeader> {
    let length = u16_of_le(b[0], b[1]) as u16;
    match spec_state_of_byte(b[2]) {
        Some(s) => Ok(OrderedHeader { length, state: s }),
        None => Err(MalformedHeader { length, state: b[2] }),
    }
}

/// Decoding an encoded header gives the header back, and a malformed
/// header re-encodes to bytes that decode to it again (its tag was
/// unrecognized to begin with).
pub proof fn lemma_header_round_trip(h: OrderedHeader, m: MalformedHeader)
    ensures
        spec_decode_header(h.spec_encoding()) == Ok::<OrderedHeader, MalformedHeader>(h),
        spec_state_of_byte(m.state) is None ==> spec_decode_header(m.spec_encoding())
            == Err::<OrderedHeader, MalformedHeader>(m),
{
    crate::codec::lemma_u16_le_round_trip(h.length as nat);
    crate::codec::lemma_u16_le_round_trip(m.length as nat);
}

/// Decoding loses nothing: whichever way three bytes decode, the decoded
/// header re-encodes to exactly those bytes. This is what lets a receiver
/// hold a decoded header aside and still account for the stream bytes it
/// came from.
pub proof fn lemma_header_reencode(b: Seq<u8>)
    requires
        b.len() == 3,
    ensures
        match spec_decode_header(b) {
            Ok(h) => h.spec_encoding() == b,
            Err(m) => m.spec_encoding() == b,
        },
{
    crate::codec::lemma_u16_le_inverse(b[0], b[1]);
    match spec_decode_header(b) {
        Ok(h) => {
            assert(h.spec_encoding() =~= b);
        },
        Err(m) => {
            assert(m.spec_encoding() =~= b);
        },
    }
}

impl OrderedHeader {
    /// Decode a header from an array.
    pub fn decode(from: [u8; 3]) -> (r: Result<OrderedHeader, MalformedHeader>)
        ensures
            r == spec_decode_header(from@),
    {
        Self::decode_from_slice(from.as_slice())
    }

    /// Decode a header from a slice holding exactly one encoded header.
    pub fn decode_from_slice(from: &[u8]) -> (r: Result<OrderedHeader, MalformedHeader>)
        requires
            from@.len() == HEADER_ENCODED_LEN,
        ensures
            r == spec_decode_header(from@),
    {
        let b0 = *vstd::slice::slice_index_get(from, 0);
        let b1 = *vstd::slice::slice_index_get(from, 1);
        let b2 = *vstd::slice::slice_index_get(from, 2);
        let length = (b0 as u16) + 256 * (b1 as u16);
        match ConnectionState::from_byte(b2) {
            Ok(state) => Ok(OrderedHeader { length, state }),
            Err(_) => Err(MalformedHeader { length, state: b2 }),
        }
    }

    /// Append this header's three encoded bytes to `into`.
    pub fn encode_into(&self, into: &mut Vec<u8>)
        ensures
            final(into)@ == old(into)@ + self.spec_encoding(),
    {
        into.push((self.length % 256) as u8);
        into.push((self.length / 256) as u8);
        into.push(self.state.to_byte());
        proof {
            assert((self.length / 256) as u8 == ((self.length as nat / 256) % 256) as u8);
            assert(into@ =~= old(into)@ + self.spec_encoding());
        }
    }
}

} // verus!
