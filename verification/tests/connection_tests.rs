use coalescence_proto::connection::Connection;
use coalescence_proto::packet::{
    AnyPacket, Channel, Lobby, PacketKind, Peer, PlayerJoined, PlayerLeft, Profile,
};
use coalescence_proto::state::{ConnectionState, ConnectionStatePhase};
use coalescence_proto::ErrorKind;

#[test]
fn client_ser() {
    let mut client = Connection::new(Peer::Client);

    client
        .handle_send(Profile {
            username: "asd".into(),
        })
        .unwrap();
}

#[test]
fn client_de() {
    let mut _client = Connection::new(Peer::Client);
}

#[test]
fn server_ser() {
    let mut server = Connection::new(Peer::Server);

    server
        .handle_send(Lobby {
            usernames: Vec::new(),
        })
        .unwrap();

    server
        .handle_send(PlayerJoined {
            username: "asd".into(),
        })
        .unwrap();

    server.handle_send(PlayerLeft).unwrap();
}

#[test]
fn server_de() {
    let mut _server = Connection::new(Peer::Server);
}

/// Delivers everything one side queued for sending into the other side.
fn deliver(from: &mut Connection, to: &mut Connection) {
    for transmit in from.poll_send() {
        assert_eq!(transmit.channel, Channel::Ordered);
        to.handle_receive(transmit.channel, transmit.bytes);
    }
}

#[test]
fn end_to_end_handshake() {
    let mut client = Connection::new(Peer::Client);
    let mut server = Connection::new(Peer::Server);
    assert_eq!(client.state(), ConnectionState::Handshake);
    assert_eq!(server.state(), ConnectionState::Handshake);

    // the client announces its profile
    client
        .handle_send(Profile {
            username: "asd".into(),
        })
        .unwrap();
    deliver(&mut client, &mut server);

    // the server decodes it and records the Profile kind as seen
    let received = server.poll_receive().unwrap();
    assert_eq!(
        received,
        Some(AnyPacket::Profile(Profile {
            username: "asd".into()
        }))
    );
    assert_eq!(server.state(), ConnectionState::Handshake);

    // sending the lobby completes the server's handshake set
    server
        .handle_send(Lobby {
            usernames: Vec::new(),
        })
        .unwrap();
    assert_eq!(server.state(), ConnectionState::Lobby);
    assert_eq!(server.poll_state_change(), Some(ConnectionState::Lobby));
    assert_eq!(server.poll_state_change(), None);

    server
        .handle_send(PlayerJoined {
            username: "asd".into(),
        })
        .unwrap();
    deliver(&mut server, &mut client);

    // the client decodes the lobby, completing its own handshake set
    let received = client.poll_receive().unwrap();
    assert_eq!(
        received,
        Some(AnyPacket::Lobby(Lobby {
            usernames: Vec::new()
        }))
    );
    assert_eq!(client.state(), ConnectionState::Lobby);
    assert_eq!(client.poll_state_change(), Some(ConnectionState::Lobby));

    // and, now in the lobby, the held lobby-phase frame becomes available
    let received = client.poll_receive().unwrap();
    assert_eq!(
        received,
        Some(AnyPacket::PlayerJoined(PlayerJoined {
            username: "asd".into()
        }))
    );
    assert_eq!(client.poll_receive().unwrap(), None);
}

#[test]
fn handshake_needs_distinct_kinds_not_count() {
    let mut server = Connection::new(Peer::Server);
    // three lobby announcements mark only the Lobby kind: no transition
    for _ in 0..3 {
        server
            .handle_send(Lobby {
                usernames: Vec::new(),
            })
            .unwrap();
        assert_eq!(server.state(), ConnectionState::Handshake);
        assert_eq!(server.poll_state_change(), None);
    }
    // the missing Profile kind arrives; the distinct-kind set is complete
    let mut client = Connection::new(Peer::Client);
    client
        .handle_send(Profile {
            username: "asd".into(),
        })
        .unwrap();
    deliver(&mut client, &mut server);
    server.poll_receive().unwrap().unwrap();
    assert_eq!(server.state(), ConnectionState::Lobby);
    assert_eq!(server.poll_state_change(), Some(ConnectionState::Lobby));
}

#[test]
fn wrong_phase_packet_yields_wrong_state() {
    // a lobby-phase packet presented to the handshake phase is rejected
    let mut phase = ConnectionStatePhase::initial();
    let e = phase.handle_packet_deserialize(PacketKind::PlayerJoined).unwrap_err();
    assert_eq!(e.kind(), ErrorKind::WrongState);
    let e = phase.handle_packet_serialize(PacketKind::Disconnect).unwrap_err();
    assert_eq!(e.kind(), ErrorKind::WrongState);
    // and is not recorded: the handshake still waits for its own kinds
    assert_eq!(phase.poll_state_change(), None);
}

#[test]
fn phase_transitions_on_complete_set() {
    let mut phase = ConnectionStatePhase::initial();
    assert_eq!(phase.state(), ConnectionState::Handshake);
    phase.handle_packet_serialize(PacketKind::Profile).unwrap();
    assert_eq!(phase.poll_state_change(), None);
    phase.handle_packet_deserialize(PacketKind::Profile).unwrap();
    assert_eq!(phase.poll_state_change(), None);
    phase.handle_packet_deserialize(PacketKind::Lobby).unwrap();
    assert_eq!(phase.poll_state_change(), Some(ConnectionState::Lobby));
}

#[test]
fn wrong_phase_frame_held_until_phase_current() {
    let mut client = Connection::new(Peer::Client);
    let mut server = Connection::new(Peer::Server);

    // the server sends its lobby, then a lobby-phase packet right behind it
    server
        .handle_send(Lobby {
            usernames: Vec::new(),
        })
        .unwrap();
    server.handle_send(PlayerLeft).unwrap();
    deliver(&mut server, &mut client);

    // the client decodes the lobby, but its handshake is still missing the
    // Profile kind, so the lobby-phase frame behind it is held, unconsumed
    assert_eq!(
        client.poll_receive().unwrap(),
        Some(AnyPacket::Lobby(Lobby {
            usernames: Vec::new()
        }))
    );
    assert_eq!(client.state(), ConnectionState::Handshake);
    assert_eq!(client.poll_receive().unwrap(), None);
    assert_eq!(client.poll_receive().unwrap(), None);

    // sending the profile completes the client's handshake set
    client
        .handle_send(Profile {
            username: "asd".into(),
        })
        .unwrap();
    assert_eq!(client.state(), ConnectionState::Lobby);

    // the held frame is finally delivered to the lobby-phase poller
    assert_eq!(
        client.poll_receive().unwrap(),
        Some(AnyPacket::PlayerLeft(PlayerLeft))
    );
}

#[test]
fn oversized_packet_rejected_without_side_effects() {
    let mut client = Connection::new(Peer::Client);
    let e = client
        .handle_send(Profile {
            username: "a".repeat(70_000),
        })
        .unwrap_err();
    assert_eq!(e.kind(), ErrorKind::PacketTooLarge);
    assert_eq!(client.state(), ConnectionState::Handshake);
    assert!(client.poll_send().is_empty());
}

#[test]
fn message_channels_decode_via_connection() {
    let mut client = Connection::new(Peer::Client);
    let payload =
        coalescence_proto::codec::serialize(&AnyPacket::PlayerLeft(PlayerLeft)).unwrap();
    client.handle_receive(Channel::Unordered, bytes::Bytes::from(payload));
    let polled = client.poll_receive_message(Channel::Unordered).unwrap();
    assert_eq!(polled.unwrap(), AnyPacket::PlayerLeft(PlayerLeft));
    assert!(client.poll_receive_message(Channel::Unordered).is_none());
}
