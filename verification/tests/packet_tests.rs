use coalescence_proto::channel;
use coalescence_proto::packet::{
    channel_of, direction_of, is_outbound, AnyPacket, Channel, Direction, Disconnect, Lobby,
    Packet, PacketKind, Peer, PlayerJoined, PlayerLeft, Profile, Received,
};
use coalescence_proto::channel::Channel as ChannelMarker;
use coalescence_proto::peer;
use coalescence_proto::peer::{Direction as DirectionMarker, Peer as PeerMarker};
use coalescence_proto::state::{state_of_kind, ConnectionState};

#[test]
fn registration_table_channels() {
    for kind in [
        PacketKind::Profile,
        PacketKind::Lobby,
        PacketKind::PlayerJoined,
        PacketKind::PlayerLeft,
        PacketKind::Disconnect,
    ] {
        assert_eq!(channel_of(kind), Channel::Ordered);
    }
}

#[test]
fn registration_table_directions() {
    assert_eq!(direction_of(PacketKind::Profile), Direction::ClientToServer);
    assert_eq!(direction_of(PacketKind::Lobby), Direction::ServerToClient);
    assert_eq!(direction_of(PacketKind::PlayerJoined), Direction::ServerToClient);
    assert_eq!(direction_of(PacketKind::PlayerLeft), Direction::ServerToClient);
    assert_eq!(direction_of(PacketKind::Disconnect), Direction::Bidirectional);
}

#[test]
fn registration_table_states() {
    assert_eq!(state_of_kind(PacketKind::Profile), ConnectionState::Handshake);
    assert_eq!(state_of_kind(PacketKind::Lobby), ConnectionState::Handshake);
    assert_eq!(state_of_kind(PacketKind::PlayerJoined), ConnectionState::Lobby);
    assert_eq!(state_of_kind(PacketKind::PlayerLeft), ConnectionState::Lobby);
    assert_eq!(state_of_kind(PacketKind::Disconnect), ConnectionState::Lobby);
}

#[test]
fn outbound_relation() {
    assert!(is_outbound(Direction::ClientToServer, Peer::Client));
    assert!(!is_outbound(Direction::ClientToServer, Peer::Server));
    assert!(is_outbound(Direction::ServerToClient, Peer::Server));
    assert!(!is_outbound(Direction::ServerToClient, Peer::Client));
    assert!(is_outbound(Direction::Bidirectional, Peer::Client));
    assert!(is_outbound(Direction::Bidirectional, Peer::Server));
}

#[test]
fn into_any_keeps_kind() {
    assert_eq!(
        Profile {
            username: "asd".into()
        }
        .into_any()
        .kind(),
        PacketKind::Profile
    );
    assert_eq!(
        Lobby {
            usernames: Vec::new()
        }
        .into_any()
        .kind(),
        PacketKind::Lobby
    );
    assert_eq!(
        PlayerJoined {
            username: "asd".into()
        }
        .into_any()
        .kind(),
        PacketKind::PlayerJoined
    );
    assert_eq!(PlayerLeft.into_any().kind(), PacketKind::PlayerLeft);
    assert_eq!(Disconnect.into_any().kind(), PacketKind::Disconnect);
}

#[test]
fn marker_types_name_their_values() {
    assert_eq!(channel::Ordered::kind(), Channel::Ordered);
    assert_eq!(channel::Unordered::kind(), Channel::Unordered);
    assert_eq!(channel::Unreliable::kind(), Channel::Unreliable);
    assert_eq!(peer::Client::side(), Peer::Client);
    assert_eq!(peer::Server::side(), Peer::Server);
    assert_eq!(peer::ClientToServer::heading(), Direction::ClientToServer);
    assert_eq!(peer::ServerToClient::heading(), Direction::ServerToClient);
    assert_eq!(peer::Bidirectional::heading(), Direction::Bidirectional);
}

#[test]
fn received_buffer_starts_empty() {
    let mut received: Received<AnyPacket> = Received::new();
    assert!(received.buffer.is_empty());
    received.buffer.push(PlayerLeft.into_any());
    assert_eq!(received.buffer.len(), 1);
    let defaulted: Received<AnyPacket> = Default::default();
    assert!(defaulted.buffer.is_empty());
}
