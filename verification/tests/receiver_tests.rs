use bytes::Bytes;
use coalescence_proto::codec::serialize;
use coalescence_proto::header::{MalformedHeader, OrderedHeader};
use coalescence_proto::packet::{AnyPacket, Channel, PlayerJoined, Profile};
use coalescence_proto::receiver::PacketReceiver;
use coalescence_proto::state::ConnectionState;
use coalescence_proto::ErrorKind;

/// The full ordered-channel frame of a packet: two little-endian length
/// bytes, the state tag of the packet's phase, then the encoded payload.
fn frame(packet: &AnyPacket, state: ConnectionState) -> Vec<u8> {
    let payload = serialize(packet).unwrap();
    let mut bytes = Vec::new();
    let header = OrderedHeader {
        length: payload.len() as u16,
        state,
    };
    header.encode_into(&mut bytes);
    bytes.extend_from_slice(&payload);
    bytes
}

fn profile_packet() -> AnyPacket {
    AnyPacket::Profile(Profile {
        username: "asd".to_string(),
    })
}

#[test]
fn header_decode_valid() {
    let h = OrderedHeader::decode([6, 0, 2]).unwrap();
    assert_eq!(h.length, 6);
    assert_eq!(h.state, ConnectionState::Handshake);
}

#[test]
fn header_decode_large_length() {
    let h = OrderedHeader::decode([0x34, 0x12, 3]).unwrap();
    assert_eq!(h.length, 0x1234);
    assert_eq!(h.state, ConnectionState::Lobby);
}

#[test]
fn header_decode_invalid_state_keeps_length() {
    let m = OrderedHeader::decode([6, 0, 9]).unwrap_err();
    assert_eq!(m, MalformedHeader { length: 6, state: 9 });
}

#[test]
fn header_encode_decode_round_trip() {
    let h = OrderedHeader {
        length: 513,
        state: ConnectionState::Established,
    };
    let mut bytes = Vec::new();
    h.encode_into(&mut bytes);
    assert_eq!(bytes, vec![1, 2, 4]);
    assert_eq!(OrderedHeader::decode_from_slice(&bytes).unwrap(), h);
}

#[test]
fn state_bytes_round_trip() {
    let states = [
        ConnectionState::Negotiation,
        ConnectionState::Authentication,
        ConnectionState::Handshake,
        ConnectionState::Lobby,
        ConnectionState::Established,
        ConnectionState::Disconnecting,
    ];
    for (i, s) in states.iter().enumerate() {
        assert_eq!(s.to_byte(), i as u8);
        assert_eq!(ConnectionState::from_byte(i as u8).unwrap(), *s);
    }
    let e = ConnectionState::from_byte(6).unwrap_err();
    assert_eq!(e.kind(), ErrorKind::InvalidState(6));
}

#[test]
fn split_frame_reconstructs_at_every_offset() {
    let packet = profile_packet();
    let bytes = frame(&packet, ConnectionState::Handshake);
    for split in 0..=bytes.len() {
        let mut receiver = PacketReceiver::new();
        receiver.receive(Channel::Ordered, Bytes::from(bytes[..split].to_vec()));
        if split < bytes.len() {
            // the frame is incomplete: no packet yet, nothing lost
            assert_eq!(receiver.poll_ordered(ConnectionState::Handshake).unwrap(), None);
        }
        receiver.receive(Channel::Ordered, Bytes::from(bytes[split..].to_vec()));
        let polled = receiver.poll_ordered(ConnectionState::Handshake).unwrap();
        assert_eq!(polled, Some(packet.clone()));
        assert_eq!(receiver.poll_ordered(ConnectionState::Handshake).unwrap(), None);
    }
}

#[test]
fn byte_at_a_time_reconstructs() {
    let packet = profile_packet();
    let bytes = frame(&packet, ConnectionState::Handshake);
    let mut receiver = PacketReceiver::new();
    for (i, b) in bytes.iter().enumerate() {
        receiver.receive(Channel::Ordered, Bytes::from(vec![*b]));
        if i + 1 < bytes.len() {
            assert_eq!(receiver.poll_ordered(ConnectionState::Handshake).unwrap(), None);
        }
    }
    let polled = receiver.poll_ordered(ConnectionState::Handshake).unwrap();
    assert_eq!(polled, Some(packet));
}

#[test]
fn resynchronizes_after_malformed_header() {
    let good = profile_packet();
    // a frame whose state tag is invalid but whose length field is sound
    let mut stream = vec![6, 0, 9, 0, 3, 0, 97, 115, 100];
    stream.extend_from_slice(&frame(&good, ConnectionState::Handshake));
    let mut receiver = PacketReceiver::new();
    receiver.receive(Channel::Ordered, Bytes::from(stream));
    let e = receiver.poll_ordered(ConnectionState::Handshake).unwrap_err();
    assert_eq!(e.kind(), ErrorKind::InvalidState(9));
    // exactly the corrupt frame was discarded; the next one decodes
    let polled = receiver.poll_ordered(ConnectionState::Handshake).unwrap();
    assert_eq!(polled, Some(good));
}

#[test]
fn undecodable_payload_discarded_whole() {
    let good = profile_packet();
    // valid header, three payload bytes that decode to no packet
    let mut stream = vec![3, 0, 2, 9, 9, 9];
    stream.extend_from_slice(&frame(&good, ConnectionState::Handshake));
    let mut receiver = PacketReceiver::new();
    receiver.receive(Channel::Ordered, Bytes::from(stream));
    let e = receiver.poll_ordered(ConnectionState::Handshake).unwrap_err();
    assert_eq!(e.kind(), ErrorKind::Codec);
    let polled = receiver.poll_ordered(ConnectionState::Handshake).unwrap();
    assert_eq!(polled, Some(good));
}

#[test]
fn wrong_state_frame_is_held_not_dropped() {
    let lobby_packet = AnyPacket::PlayerJoined(PlayerJoined {
        username: "asd".to_string(),
    });
    let mut receiver = PacketReceiver::new();
    receiver.receive(
        Channel::Ordered,
        Bytes::from(frame(&lobby_packet, ConnectionState::Lobby)),
    );
    // a handshake poller sees nothing, and consumes nothing
    assert_eq!(receiver.poll_ordered(ConnectionState::Handshake).unwrap(), None);
    assert_eq!(receiver.poll_ordered(ConnectionState::Handshake).unwrap(), None);
    // a lobby poller gets the held frame
    let polled = receiver.poll_ordered(ConnectionState::Lobby).unwrap();
    assert_eq!(polled, Some(lobby_packet));
}

#[test]
fn mismatched_payload_kind_is_codec_error() {
    // the frame announces the lobby phase but carries a handshake packet
    let mut receiver = PacketReceiver::new();
    receiver.receive(
        Channel::Ordered,
        Bytes::from(frame(&profile_packet(), ConnectionState::Lobby)),
    );
    let e = receiver.poll_ordered(ConnectionState::Lobby).unwrap_err();
    assert_eq!(e.kind(), ErrorKind::Codec);
}

#[test]
fn unordered_channel_isolation() {
    let good = profile_packet();
    let unreliable_good = AnyPacket::PlayerLeft(coalescence_proto::packet::PlayerLeft);
    let mut receiver = PacketReceiver::new();
    receiver.receive(Channel::Unordered, Bytes::from(vec![7, 7]));
    receiver.receive(Channel::Unordered, Bytes::from(serialize(&good).unwrap()));
    receiver.receive(
        Channel::Unreliable,
        Bytes::from(serialize(&unreliable_good).unwrap()),
    );
    // the bad message fails alone; the buffered good ones still decode
    let first = receiver.poll_message(Channel::Unordered).unwrap();
    assert_eq!(first.unwrap_err().kind(), ErrorKind::Codec);
    let second = receiver.poll_message(Channel::Unordered).unwrap();
    assert_eq!(second.unwrap(), good);
    let third = receiver.poll_message(Channel::Unreliable).unwrap();
    assert_eq!(third.unwrap(), unreliable_good);
    assert!(receiver.poll_message(Channel::Unordered).is_none());
    assert!(receiver.poll_message(Channel::Unreliable).is_none());
}
