//! The serialization backend for packet payloads.
//!
//! The encoding is deterministic and carries no framing of its own: one tag
//! byte naming the packet type, then the fields. A string is a two-byte
//! little-endian byte count followed by its UTF-8 bytes; a list is a
//! two-byte element count followed by the elements. Framing (the outer
//! length prefix) is the business of the header layer, which is why
//! [`serialized_size`] must be exact and not an estimate.
//!
//! [`encoding`] says which bytes a packet encodes to and [`decode_spec`]
//! which packet a byte sequence decodes to; [`lemma_codec_round_trip`]
//! proves that decoding an encoding yields the original packet.

use vstd::prelude::*;

use vstd::arithmetic::div_mod::lemma_fundamental_div_mod;
use vstd::string::StrSliceExecFns;
use vstd::utf8::{decode_utf8, encode_utf8, encode_utf8_decode_utf8, encode_utf8_valid_utf8,
    valid_utf8};

use vstd::slice::{slice_index_get, slice_subrange, slice_to_vec};

use crate::byte_queue::ByteQueue;
use crate::packet::{AnyPacket, Disconnect, Lobby, PacketData, PlayerJoined, PlayerLeft, Profile};
use crate::{Error, ErrorKind};

verus! {

/// The largest encoded payload the wire format can carry: the framing layer
/// prefixes every payload with a two-byte length, and two-byte counts bound
/// every field, so nothing larger can be framed.
pub const MAX_PACKET_LEN: usize = 65535;

/// The two little-endian bytes encoding a (16-bit) count.
pub open spec fn u16_le_bytes(n: nat) -> Seq<u8> {
    seq![(n % 256) as u8, ((n / 256) % 256) as u8]
}

/// The count two little-endian bytes encode.
pub open spec fn u16_of_le(b0: u8, b1: u8) -> nat {
    b0 as nat + 256 * (b1 as nat)
}

/// Reading back the two little-endian bytes of a count below 2^16 yields
/// the count.
pub proof fn lemma_u16_le_round_trip(n: nat)
    requires
        n <= 65535,
    ensures
        u16_of_le(u16_le_bytes(n)[0], u16_le_bytes(n)[1]) == n,
{
    lemma_fundamental_div_mod(n as int, 256);
}

/// Encoding the count two little-endian bytes hold yields those bytes
/// again: the two-byte encoding is a bijection below 2^16.
pub proof fn lemma_u16_le_inverse(b0: u8, b1: u8)
    ensures
        u16_le_bytes(u16_of_le(b0, b1)) == seq![b0, b1],
{
    let n = u16_of_le(b0, b1) as int;
    vstd::arithmetic::div_mod::lemma_fundamental_div_mod_converse(n, 256, b1 as int, b0 as int);
    assert(u16_le_bytes(u16_of_le(b0, b1)) =~= seq![b0, b1]);
}

/// The bytes encoding one string: a two-byte count of its UTF-8 bytes,
/// then those bytes.
pub open spec fn encode_str(s: Seq<char>) -> Seq<u8> {
    u16_le_bytes(encode_utf8(s).len()) + encode_utf8(s)
}

/// The bytes encoding a list of strings, one after the other (the element
/// count travels separately).
pub open spec fn encode_str_seq(l: Seq<Seq<char>>) -> Seq<u8>
    decreases l.len(),
{
    if l.len() == 0 {
        Seq::empty()
    } else {
        encode_str(l[0]) + encode_str_seq(l.drop_first())
    }
}

/// The bytes a packet encodes to: its tag, then its fields.
pub open spec fn encoding(d: PacketData) -> Seq<u8> {
    match d {
        PacketData::Profile { username } => seq![0u8] + encode_str(username),
        PacketData::Lobby { usernames } => seq![1u8] + u16_le_bytes(usernames.len())
            + encode_str_seq(usernames),
        PacketData::PlayerJoined { username } => seq![2u8] + encode_str(username),
        PacketData::PlayerLeft => seq![3u8],
        PacketData::Disconnect => seq![4u8],
    }
}

/// Whether a packet fits the wire format: every two-byte count must hold
/// its value, and the whole payload must stay within [`MAX_PACKET_LEN`].
pub open spec fn encodable(d: PacketData) -> bool {
    &&& match d {
        PacketData::Lobby { usernames } => {
            &&& usernames.len() <= 65535
            &&& forall|i: int|
                0 <= i < usernames.len() ==> encode_utf8(#[trigger] usernames[i]).len() <= 65535
        },
        _ => true,
    }
    &&& encoding(d).len() <= MAX_PACKET_LEN
}

/// The string read from the front of `b`: its two-byte byte count, that
/// many UTF-8 bytes, and the unread remainder of `b`.
pub open spec fn parse_str(b: Seq<u8>) -> Option<(Seq<char>, Seq<u8>)> {
    if b.len() < 2 {
        None
    } else {
        let n = u16_of_le(b[0], b[1]) as int;
        if b.len() < 2 + n {
            None
        } else {
            let body = b.subrange(2, 2 + n);
            if valid_utf8(body) {
                Some((decode_utf8(body), b.skip(2 + n)))
            } else {
                None
            }
        }
    }
}

/// `count` strings read from the front of `b`, and the unread remainder.
pub open spec fn parse_str_seq(b: Seq<u8>, count: nat) -> Option<(Seq<Seq<char>>, Seq<u8>)>
    decreases count,
{
    if count == 0 {
        Some((Seq::empty(), b))
    } else {
        match parse_str(b) {
            None => None,
            Some((s, rest)) => match parse_str_seq(rest, (count - 1) as nat) {
                None => None,
                Some((ss, rest2)) => Some((seq![s] + ss, rest2)),
            },
        }
    }
}

/// The packet a byte sequence decodes to, if it is exactly one encoded
/// packet: the tag picks the type, the fields follow, and nothing may
/// trail them.
pub open spec fn decode_spec(b: Seq<u8>) -> Option<PacketData> {
    if b.len() < 1 {
        None
    } else {
        let tag = b[0];
        let rest = b.skip(1);
        if tag == 0u8 {
            match parse_str(rest) {
                Some((s, r)) => if r.len() == 0 {
                    Some(PacketData::Profile { username: s })
                } else {
                    None
                },
                None => None,
            }
        } else if tag == 1u8 {
            if rest.len() < 2 {
                None
            } else {
                match parse_str_seq(rest.skip(2), u16_of_le(rest[0], rest[1])) {
                    Some((ss, r)) => if r.len() == 0 {
                        Some(PacketData::Lobby { usernames: ss })
                    } else {
                        None
                    },
                    None => None,
                }
            }
        } else if tag == 2u8 {
            match parse_str(rest) {
                Some((s, r)) => if r.len() == 0 {
                    Some(PacketData::PlayerJoined { username: s })
                } else {
                    None
                },
                None => None,
            }
        } else if tag == 3u8 {
            if rest.len() == 0 {
                Some(PacketData::PlayerLeft)
            } else {
                None
            }
        } else if tag == 4u8 {
            if rest.len() == 0 {
                Some(PacketData::Disconnect)
            } else {
                None
            }
        } else {
            None
        }
    }
}

/// Parsing a string off an encoded string returns the string and leaves
/// exactly the trailing bytes.
proof fn lemma_parse_encode_str(s: Seq<char>, rest: Seq<u8>)
    requires
        encode_utf8(s).len() <= 65535,
    ensures
        parse_str(encode_str(s) + rest) == Some((s, rest)),
{
    let u = encode_utf8(s);
    let b = encode_str(s) + rest;
    lemma_u16_le_round_trip(u.len());
    assert(b[0] == u16_le_bytes(u.len())[0]);
    assert(b[1] == u16_le_bytes(u.len())[1]);
    assert(b.subrange(2, 2 + u.len() as int) =~= u);
    encode_utf8_valid_utf8(s);
    encode_utf8_decode_utf8(s);
    assert(b.skip(2 + u.len() as int) =~= rest);
}

/// Parsing `l.len()` strings off an encoded string list returns the list
/// and leaves exactly the trailing bytes.
proof fn lemma_parse_encode_str_seq(l: Seq<Seq<char>>, rest: Seq<u8>)
    requires
        forall|i: int| 0 <= i < l.len() ==> encode_utf8(#[trigger] l[i]).len() <= 65535,
    ensures
        parse_str_seq(encode_str_seq(l) + rest, l.len()) == Some((l, rest)),
    decreases l.len(),
{
    if l.len() == 0 {
        assert(encode_str_seq(l) + rest =~= rest);
        assert(Seq::<Seq<char>>::empty() + Seq::<Seq<char>>::empty() =~= Seq::<
            Seq<char>,
        >::empty());
    } else {
        let tail = l.drop_first();
        assert(encode_str_seq(l) + rest =~= encode_str(l[0]) + (encode_str_seq(tail) + rest));
        lemma_parse_encode_str(l[0], encode_str_seq(tail) + rest);
        lemma_parse_encode_str_seq(tail, rest);
        assert(seq![l[0]] + tail =~= l);
    }
}

/// Encoding one more string of a list appends exactly that string's
/// encoding.
proof fn lemma_encode_str_seq_take_succ(l: Seq<Seq<char>>, i: int)
    requires
        0 <= i < l.len(),
    ensures
        encode_str_seq(l.take(i + 1)) == encode_str_seq(l.take(i)) + encode_str(l[i]),
    decreases i,
{
    if i == 0 {
        assert(l.take(0int) =~= Seq::<Seq<char>>::empty());
        assert(l.take(1int).drop_first() =~= Seq::<Seq<char>>::empty());
        assert(l.take(1int)[0] == l[0]);
        assert(encode_str_seq(l.take(1int)) =~= encode_str_seq(l.take(0int)) + encode_str(l[0]));
    } else {
        let t = l.drop_first();
        assert(l.take(i + 1).drop_first() =~= t.take(i));
        assert(l.take(i).drop_first() =~= t.take(i - 1));
        assert(l.take(i + 1)[0] == l[0]);
        assert(l.take(i)[0] == l[0]);
        lemma_encode_str_seq_take_succ(t, i - 1);
        assert(t[i - 1] == l[i]);
        assert(encode_str_seq(l.take(i + 1)) =~= encode_str_seq(l.take(i)) + encode_str(l[i]));
    }
}

/// Round-trip: decoding the encoding of any wire-format-sized packet
/// yields exactly that packet.
pub proof fn lemma_codec_round_trip(d: PacketData)
    requires
        encodable(d),
    ensures
        decode_spec(encoding(d)) == Some(d),
{
    let b = encoding(d);
    match d {
        PacketData::Profile { username } => {
            assert(b.skip(1) =~= encode_str(username) + Seq::<u8>::empty());
            lemma_parse_encode_str(username, Seq::empty());
        },
        PacketData::Lobby { usernames } => {
            let cnt_bytes = u16_le_bytes(usernames.len());
            let rest = b.skip(1);
            assert(rest =~= cnt_bytes + encode_str_seq(usernames));
            lemma_u16_le_round_trip(usernames.len());
            assert(rest[0] == cnt_bytes[0] && rest[1] == cnt_bytes[1]);
            assert(rest.skip(2) =~= encode_str_seq(usernames) + Seq::<u8>::empty());
            lemma_parse_encode_str_seq(usernames, Seq::empty());
        },
        PacketData::PlayerJoined { username } => {
            assert(b.skip(1) =~= encode_str(username) + Seq::<u8>::empty());
            lemma_parse_encode_str(username, Seq::empty());
        },
        PacketData::PlayerLeft => {
            assert(b.skip(1).len() == 0);
        },
        PacketData::Disconnect => {
            assert(b.skip(1).len() == 0);
        },
    }
}

/// Relies on `String::from_utf8`: it succeeds exactly on valid UTF-8 input,
/// and then returns the string those bytes spell.
#[verifier::external_body]
fn string_from_utf8(v: Vec<u8>) -> (r: Option<String>)
    ensures
        r is Some <==> valid_utf8(v@),
        r matches Some(s) ==> s@ == decode_utf8(v@),
{
    String::from_utf8(v).ok()
}

/// Appends the two little-endian bytes of `n` to `out`.
fn write_u16(out: &mut Vec<u8>, n: usize)
    requires
        n <= 65535,
    ensures
        final(out)@ == old(out)@ + u16_le_bytes(n as nat),
{
    out.push((n % 256) as u8);
    out.push(((n / 256) % 256) as u8);
    proof {
        assert(out@ =~= old(out)@ + u16_le_bytes(n as nat));
    }
}

/// Appends the encoding of one string to `out`.
fn write_str(out: &mut Vec<u8>, s: &String)
    requires
        encode_utf8(s@).len() <= 65535,
    ensures
        final(out)@ == old(out)@ + encode_str(s@),
{
    let mut bytes = s.as_str().as_bytes_vec();
    write_u16(out, bytes.len());
    out.append(&mut bytes);
    proof {
        assert(out@ =~= old(out)@ + encode_str(s@));
    }
}

/// The encoded size of a packet that is one tag and one string, if it fits
/// the wire format.
fn str_payload_size(s: &String) -> (r: Result<usize, Error>)
    ensures
        match r {
            Ok(n) => n == 3 + encode_utf8(s@).len() && n <= 65535,
            Err(e) => 3 + encode_utf8(s@).len() > 65535 && e.kind == ErrorKind::PacketTooLarge,
        },
{
    let bytes = s.as_str().as_bytes_vec();
    let bl = bytes.len();
    if bl > 65532 {
        Err(Error::packet_too_large())
    } else {
        Ok(3 + bl)
    }
}

/// The exact number of bytes [`serialize`] would produce for this packet —
/// computed, not estimated, since framing depends on it — or the error
/// [`serialize`] would return.
pub fn serialized_size(packet: &AnyPacket) -> (r: Result<usize, Error>)
    ensures
        match r {
            Ok(n) => encodable(packet@) && n == encoding(packet@).len(),
            Err(e) => !encodable(packet@) && e.kind == ErrorKind::PacketTooLarge,
        },
{
    match packet {
        AnyPacket::Profile(p) => {
            let r = str_payload_size(&p.username);
            proof {
                assert(encoding(packet@).len() == 3 + encode_utf8(p.username@).len());
            }
            r
        },
        AnyPacket::PlayerJoined(p) => {
            let r = str_payload_size(&p.username);
            proof {
                assert(encoding(packet@).len() == 3 + encode_utf8(p.username@).len());
            }
            r
        },
        AnyPacket::Lobby(p) => {
            let cnt = p.usernames.len();
            if cnt > 65535 {
                return Err(Error::packet_too_large());
            }
            let ghost l = p.usernames.deep_view();
            let mut size: u64 = 3;
            let mut i: usize = 0;
            proof {
                assert(l.take(0int) =~= Seq::<Seq<char>>::empty());
            }
            while i < cnt
                invariant
                    i <= cnt,
                    cnt == p.usernames@.len(),
                    cnt <= 65535,
                    l == p.usernames.deep_view(),
                    packet@ == (PacketData::Lobby { usernames: l }),
                    size as int == 3 + encode_str_seq(l.take(i as int)).len(),
                    size <= 3 + 65537 * (i as int),
                    forall|j: int|
                        0 <= j < i ==> encode_utf8(#[trigger] l[j]).len() <= 65535,
                decreases cnt - i,
            {
                let bytes = p.usernames[i].as_str().as_bytes_vec();
                let bl = bytes.len();
                if bl > 65535 {
                    proof {
                        assert(l.len() == p.usernames@.len());
                        assert(l[i as int] == p.usernames@[i as int]@);
                        assert(encode_utf8(l[i as int]).len() > 65535);
                        assert(!encodable(packet@));
                    }
                    return Err(Error::packet_too_large());
                }
                proof {
                    lemma_encode_str_seq_take_succ(l, i as int);
                }
                size = size + 2 + (bl as u64);
                i = i + 1;
            }
            proof {
                assert(l.take(cnt as int) =~= l);
                assert(encoding(packet@).len() == 3 + encode_str_seq(l).len());
            }
            if size > 65535 {
                Err(Error::packet_too_large())
            } else {
                Ok(size as usize)
            }
        },
        AnyPacket::PlayerLeft(_) => Ok(1),
        AnyPacket::Disconnect(_) => Ok(1),
    }
}

/// Appends the encoding of `packet` to `out`, or leaves `out` untouched and
/// reports why the packet does not fit the wire format.
pub fn serialize_into(out: &mut Vec<u8>, packet: &AnyPacket) -> (r: Result<(), Error>)
    ensures
        match r {
            Ok(()) => encodable(packet@) && final(out)@ == old(out)@ + encoding(packet@),
            Err(e) => {
                &&& !encodable(packet@)
                &&& final(out)@ == old(out)@
                &&& e.kind == ErrorKind::PacketTooLarge
            },
        },
{
    match serialized_size(packet) {
        Err(e) => {
            return Err(e);
        },
        Ok(_) => {},
    }
    match packet {
        AnyPacket::Profile(p) => {
            out.push(0u8);
            write_str(out, &p.username);
            proof {
                assert(out@ =~= old(out)@ + encoding(packet@));
            }
        },
        AnyPacket::PlayerJoined(p) => {
            out.push(2u8);
            write_str(out, &p.username);
            proof {
                assert(out@ =~= old(out)@ + encoding(packet@));
            }
        },
        AnyPacket::Lobby(p) => {
            let ghost l = p.usernames.deep_view();
            let cnt = p.usernames.len();
            out.push(1u8);
            write_u16(out, cnt);
            let ghost mid = out@;
            proof {
                assert(l.take(0int) =~= Seq::<Seq<char>>::empty());
                assert(mid + encode_str_seq(l.take(0int)) =~= mid);
            }
            let mut i: usize = 0;
            while i < cnt
                invariant
                    i <= cnt,
                    cnt == p.usernames@.len(),
                    l == p.usernames.deep_view(),
                    encodable(PacketData::Lobby { usernames: l }),
                    out@ == mid + encode_str_seq(l.take(i as int)),
                decreases cnt - i,
            {
                proof {
                    lemma_encode_str_seq_take_succ(l, i as int);
                }
                write_str(out, &p.usernames[i]);
                i = i + 1;
                proof {
                    assert(out@ =~= mid + encode_str_seq(l.take(i as int)));
                }
            }
            proof {
                assert(l.take(cnt as int) =~= l);
                assert(out@ =~= old(out)@ + encoding(packet@));
            }
        },
        AnyPacket::PlayerLeft(_) => {
            out.push(3u8);
            proof {
                assert(out@ =~= old(out)@ + encoding(packet@));
            }
        },
        AnyPacket::Disconnect(_) => {
            out.push(4u8);
            proof {
                assert(out@ =~= old(out)@ + encoding(packet@));
            }
        },
    }
    Ok(())
}

/// The encoding of `packet` as a fresh byte vector, or why the packet does
/// not fit the wire format.
pub fn serialize(packet: &AnyPacket) -> (r: Result<Vec<u8>, Error>)
    ensures
        match r {
            Ok(v) => encodable(packet@) && v@ == encoding(packet@),
            Err(e) => !encodable(packet@) && e.kind == ErrorKind::PacketTooLarge,
        },
{
    let mut out: Vec<u8> = Vec::new();
    match serialize_into(&mut out, packet) {
        Ok(()) => {
            proof {
                assert(out@ =~= encoding(packet@));
            }
            Ok(out)
        },
        Err(e) => Err(e),
    }
}

/// The count held by the two little-endian bytes at `pos`.
fn read_u16_at(bytes: &[u8], pos: usize) -> (n: usize)
    requires
        pos + 2 <= bytes@.len(),
    ensures
        n == u16_of_le(bytes@[pos as int], bytes@[pos as int + 1]),
        n <= 65535,
{
    let l = bytes.len();
    let b0 = *slice_index_get(bytes, pos);
    let b1 = *slice_index_get(bytes, pos + 1);
    (b0 as usize) + 256 * (b1 as usize)
}

/// Reads one encoded string starting at `pos`, returning it and the
/// position just past it; fails exactly where the parse of the remaining
/// bytes fails.
fn read_str_at(bytes: &[u8], pos: usize) -> (r: Result<(String, usize), Error>)
    requires
        pos <= bytes@.len(),
    ensures
        match r {
            Ok((s, new_pos)) => {
                &&& parse_str(bytes@.skip(pos as int)) == Some(
                    (s@, bytes@.skip(new_pos as int)),
                )
                &&& pos < new_pos <= bytes@.len()
            },
            Err(e) => parse_str(bytes@.skip(pos as int)) is None && e.kind == ErrorKind::Codec,
        },
{
    let avail = bytes.len() - pos;
    if avail < 2 {
        return Err(Error::codec());
    }
    let n = read_u16_at(bytes, pos);
    proof {
        assert(bytes@.skip(pos as int)[0] == bytes@[pos as int]);
        assert(bytes@.skip(pos as int)[1] == bytes@[pos as int + 1]);
    }
    if avail - 2 < n {
        return Err(Error::codec());
    }
    let body = slice_subrange(bytes, pos + 2, pos + 2 + n);
    let v = slice_to_vec(body);
    proof {
        assert(v@ =~= bytes@.skip(pos as int).subrange(2, 2 + n as int));
    }
    match string_from_utf8(v) {
        Some(s) => {
            proof {
                assert(bytes@.skip(pos as int).skip(2 + n as int) =~= bytes@.skip(
                    (pos + 2 + n) as int,
                ));
            }
            Ok((s, pos + 2 + n))
        },
        None => Err(Error::codec()),
    }
}

/// Decodes `bytes` as exactly one packet; a failure reports a codec error
/// and happens exactly where [`decode_spec`] yields nothing.
pub fn deserialize(bytes: &[u8]) -> (r: Result<AnyPacket, Error>)
    ensures
        match r {
            Ok(p) => decode_spec(bytes@) == Some(p@),
            Err(e) => decode_spec(bytes@) is None && e.kind == ErrorKind::Codec,
        },
{
    if bytes.len() < 1 {
        return Err(Error::codec());
    }
    let tag = *slice_index_get(bytes, 0);
    proof {
        assert(bytes@.skip(1int) =~= bytes@.subrange(1, bytes@.len() as int));
    }
    if tag == 0 {
        match read_str_at(bytes, 1) {
            Ok((s, p)) => if p == bytes.len() {
                Ok(AnyPacket::Profile(Profile { username: s }))
            } else {
                Err(Error::codec())
            },
            Err(e) => Err(e),
        }
    } else if tag == 1 {
        if bytes.len() < 3 {
            return Err(Error::codec());
        }
        let cnt = read_u16_at(bytes, 1);
        proof {
            assert(bytes@.skip(1int)[0] == bytes@[1int]);
            assert(bytes@.skip(1int)[1] == bytes@[2int]);
            assert(bytes@.skip(1int).skip(2int) =~= bytes@.skip(3int));
            assert(parse_str_seq(bytes@.skip(3int), 0nat) == Some(
                (Seq::<Seq<char>>::empty(), bytes@.skip(3int)),
            ));
        }
        let mut acc: Vec<String> = Vec::new();
        let mut pos: usize = 3;
        let mut j: usize = 0;
        proof {
            assert(acc.deep_view() =~= Seq::<Seq<char>>::empty());
        }
        while j < cnt
            invariant
                j <= cnt,
                cnt <= 65535,
                3 <= pos <= bytes@.len(),
                bytes@.len() >= 3,
                bytes@[0int] == 1u8,
                cnt == u16_of_le(bytes@[1int], bytes@[2int]),
                acc.deep_view().len() == j,
                match parse_str_seq(bytes@.skip(pos as int), (cnt - j) as nat) {
                    None => parse_str_seq(bytes@.skip(3int), cnt as nat) is None,
                    Some((ss, rr)) => parse_str_seq(bytes@.skip(3int), cnt as nat)
                        == Some::<(Seq<Seq<char>>, Seq<u8>)>((acc.deep_view() + ss, rr)),
                },
            decreases cnt - j,
        {
            let ghost acc_pre = acc.deep_view();
            match read_str_at(bytes, pos) {
                Ok((s, p2)) => {
                    acc.push(s);
                    pos = p2;
                    j = j + 1;
                    proof {
                        assert(acc.deep_view() =~= acc_pre.push(s@));
                        assert forall|ss: Seq<Seq<char>>|
                            true implies acc_pre + (seq![s@] + ss) =~= acc_pre.push(s@)
                            + ss by {};
                    }
                },
                Err(e) => {
                    proof {
                        assert(parse_str_seq(bytes@.skip(3int), cnt as nat) is None);
                        assert(bytes@.skip(1int)[0] == bytes@[1int]);
                        assert(bytes@.skip(1int)[1] == bytes@[2int]);
                        assert(bytes@.skip(1int).skip(2int) =~= bytes@.skip(3int));
                        assert(decode_spec(bytes@) is None);
                    }
                    return Err(e);
                },
            }
        }
        proof {
            assert(bytes@.skip(1int)[0] == bytes@[1int]);
            assert(bytes@.skip(1int)[1] == bytes@[2int]);
            assert(bytes@.skip(1int).skip(2int) =~= bytes@.skip(3int));
        }
        proof {
            assert(parse_str_seq(bytes@.skip(pos as int), 0nat) == Some(
                (Seq::<Seq<char>>::empty(), bytes@.skip(pos as int)),
            ));
            assert(acc.deep_view() + Seq::<Seq<char>>::empty() =~= acc.deep_view());
        }
        if pos == bytes.len() {
            proof {
                assert(bytes@.skip(pos as int).len() == 0);
            }
            Ok(AnyPacket::Lobby(Lobby { usernames: acc }))
        } else {
            Err(Error::codec())
        }
    } else if tag == 2 {
        match read_str_at(bytes, 1) {
            Ok((s, p)) => if p == bytes.len() {
                Ok(AnyPacket::PlayerJoined(PlayerJoined { username: s }))
            } else {
                Err(Error::codec())
            },
            Err(e) => Err(e),
        }
    } else if tag == 3 {
        if bytes.len() == 1 {
            Ok(AnyPacket::PlayerLeft(PlayerLeft))
        } else {
            Err(Error::codec())
        }
    } else if tag == 4 {
        if bytes.len() == 1 {
            Ok(AnyPacket::Disconnect(Disconnect))
        } else {
            Err(Error::codec())
        }
    } else {
        Err(Error::codec())
    }
}

/// Consumes exactly `length` bytes from the front of `queue` and decodes
/// them as one packet. The bytes are consumed whether or not the decode
/// succeeds, so the queue stays aligned with the next frame either way.
pub fn deserialize_from(queue: &mut ByteQueue, length: usize) -> (r: Result<AnyPacket, Error>)
    requires
        old(queue).wf(),
        length <= old(queue)@.len(),
    ensures
        final(queue).wf(),
        final(queue)@ == old(queue)@.skip(length as int),
        match r {
            Ok(p) => decode_spec(old(queue)@.take(length as int)) == Some(p@),
            Err(e) => {
                &&& decode_spec(old(queue)@.take(length as int)) is None
                &&& e.kind == ErrorKind::Codec
            },
        },
{
    let buf = queue.read_exact(length);
    deserialize(buf.as_slice())
}

} // verus!
