use coalescence_proto::codec::{deserialize, serialize, serialize_into, serialized_size};
use coalescence_proto::packet::{AnyPacket, Disconnect, Lobby, PlayerJoined, PlayerLeft, Profile};
use coalescence_proto::ErrorKind;

fn profile(username: &str) -> AnyPacket {
    AnyPacket::Profile(Profile {
        username: username.to_string(),
    })
}

fn lobby(usernames: &[&str]) -> AnyPacket {
    AnyPacket::Lobby(Lobby {
        usernames: usernames.iter().map(|s| s.to_string()).collect(),
    })
}

#[test]
fn round_trip_profile() {
    let packet = profile("asd");
    let bytes = serialize(&packet).unwrap();
    assert_eq!(deserialize(&bytes).unwrap(), packet);
}

#[test]
fn round_trip_profile_unicode() {
    let packet = profile("héllo wörld ✓");
    let bytes = serialize(&packet).unwrap();
    assert_eq!(deserialize(&bytes).unwrap(), packet);
}

#[test]
fn round_trip_lobby() {
    let packet = lobby(&["asd", "", "zxc"]);
    let bytes = serialize(&packet).unwrap();
    assert_eq!(deserialize(&bytes).unwrap(), packet);
}

#[test]
fn round_trip_lobby_empty() {
    let packet = lobby(&[]);
    let bytes = serialize(&packet).unwrap();
    assert_eq!(deserialize(&bytes).unwrap(), packet);
}

#[test]
fn round_trip_player_joined() {
    let packet = AnyPacket::PlayerJoined(PlayerJoined {
        username: "asd".to_string(),
    });
    let bytes = serialize(&packet).unwrap();
    assert_eq!(deserialize(&bytes).unwrap(), packet);
}

#[test]
fn round_trip_player_left() {
    let packet = AnyPacket::PlayerLeft(PlayerLeft);
    let bytes = serialize(&packet).unwrap();
    assert_eq!(deserialize(&bytes).unwrap(), packet);
}

#[test]
fn round_trip_disconnect() {
    let packet = AnyPacket::Disconnect(Disconnect);
    let bytes = serialize(&packet).unwrap();
    assert_eq!(deserialize(&bytes).unwrap(), packet);
}

#[test]
fn profile_exact_bytes() {
    let bytes = serialize(&profile("asd")).unwrap();
    assert_eq!(bytes, vec![0, 3, 0, 97, 115, 100]);
}

#[test]
fn lobby_exact_bytes() {
    let bytes = serialize(&lobby(&["ab", "c"])).unwrap();
    assert_eq!(bytes, vec![1, 2, 0, 2, 0, 97, 98, 1, 0, 99]);
}

#[test]
fn marker_packets_exact_bytes() {
    assert_eq!(serialize(&AnyPacket::PlayerLeft(PlayerLeft)).unwrap(), vec![3]);
    assert_eq!(serialize(&AnyPacket::Disconnect(Disconnect)).unwrap(), vec![4]);
}

#[test]
fn serialized_size_is_exact() {
    for packet in [
        profile("asd"),
        profile(""),
        lobby(&[]),
        lobby(&["one", "two", "threë"]),
        AnyPacket::PlayerJoined(PlayerJoined {
            username: "q".to_string(),
        }),
        AnyPacket::PlayerLeft(PlayerLeft),
        AnyPacket::Disconnect(Disconnect),
    ] {
        let bytes = serialize(&packet).unwrap();
        assert_eq!(serialized_size(&packet).unwrap(), bytes.len());
    }
}

#[test]
fn serialize_into_appends() {
    let mut out = vec![9, 9];
    serialize_into(&mut out, &AnyPacket::PlayerLeft(PlayerLeft)).unwrap();
    assert_eq!(out, vec![9, 9, 3]);
}

#[test]
fn decode_empty_fails() {
    let e = deserialize(&[]).unwrap_err();
    assert_eq!(e.kind(), ErrorKind::Codec);
}

#[test]
fn decode_unknown_tag_fails() {
    let e = deserialize(&[9]).unwrap_err();
    assert_eq!(e.kind(), ErrorKind::Codec);
}

#[test]
fn decode_trailing_bytes_fails() {
    // a valid marker packet followed by a stray byte must not decode
    let e = deserialize(&[3, 0]).unwrap_err();
    assert_eq!(e.kind(), ErrorKind::Codec);
}

#[test]
fn decode_truncated_string_fails() {
    // the length prefix announces five bytes but only one follows
    let e = deserialize(&[0, 5, 0, 97]).unwrap_err();
    assert_eq!(e.kind(), ErrorKind::Codec);
}

#[test]
fn decode_invalid_utf8_fails() {
    let e = deserialize(&[0, 1, 0, 0xFF]).unwrap_err();
    assert_eq!(e.kind(), ErrorKind::Codec);
}

#[test]
fn decode_lobby_bad_count_fails() {
    // the count announces two strings but only one follows
    let e = deserialize(&[1, 2, 0, 1, 0, 97]).unwrap_err();
    assert_eq!(e.kind(), ErrorKind::Codec);
}

#[test]
fn oversized_profile_rejected() {
    let packet = profile(&"a".repeat(70_000));
    assert_eq!(serialize(&packet).unwrap_err().kind(), ErrorKind::PacketTooLarge);
    assert_eq!(serialized_size(&packet).unwrap_err().kind(), ErrorKind::PacketTooLarge);
}

#[test]
fn profile_size_boundary() {
    // 65532 payload bytes plus tag and length prefix fill the frame exactly
    let packet = profile(&"a".repeat(65_532));
    assert_eq!(serialized_size(&packet).unwrap(), 65_535);
    let packet = profile(&"a".repeat(65_533));
    assert_eq!(serialized_size(&packet).unwrap_err().kind(), ErrorKind::PacketTooLarge);
}

#[test]
fn oversized_lobby_rejected() {
    let names: Vec<&str> = vec!["abcdefgh"; 10_000];
    let packet = lobby(&names);
    assert_eq!(serialize(&packet).unwrap_err().kind(), ErrorKind::PacketTooLarge);
}
