use serverbound::packets::{Handshake, ServerboundPacket};
use serverbound::registry::{id_of, resolve, state_of, PacketKind};
use serverbound::error::Error;
use serverbound::state::ClientState;
use serverbound::wire::Reader;

fn handshake(next_state: i32) -> Handshake {
    Handshake {
        protocol_version: 340,
        server_address: "localhost".to_string(),
        server_port: 25565,
        next_state,
    }
}

#[test]
fn next_state_1_is_status() {
    assert_eq!(handshake(1).get_next_clientstate(), Some(ClientState::Status));
}

#[test]
fn next_state_2_is_login() {
    assert_eq!(handshake(2).get_next_clientstate(), Some(ClientState::Login));
}

#[test]
fn next_state_0_is_nothing() {
    assert_eq!(handshake(0).get_next_clientstate(), None);
}

#[test]
fn next_state_99_is_nothing() {
    assert_eq!(handshake(99).get_next_clientstate(), None);
}

#[test]
fn next_state_out_of_the_way_is_nothing() {
    assert_eq!(handshake(3).get_next_clientstate(), None);
    assert_eq!(handshake(-1).get_next_clientstate(), None);
    assert_eq!(handshake(i32::MAX).get_next_clientstate(), None);
    assert_eq!(handshake(i32::MIN).get_next_clientstate(), None);
}

#[test]
fn handshake_bytes_are_exact() {
    let bytes = handshake(2).to_u8().unwrap();
    let mut expected = vec![0x00, 0xd4, 0x02, 9];
    expected.extend_from_slice(b"localhost");
    expected.extend_from_slice(&[0x63, 0xdd, 0x02]);
    assert_eq!(bytes, expected);
}

#[test]
fn handshake_round_trips() {
    let packet = ServerboundPacket::Handshake(handshake(1));
    let bytes = packet.to_u8().unwrap();
    let mut r = Reader::new(&bytes);
    let back = ServerboundPacket::deserialize(&mut r, &ClientState::Handshake).unwrap();
    assert_eq!(back, packet);
    assert_eq!(r.remaining(), 0);
}

#[test]
fn every_kind_is_found_under_its_state_and_id() {
    let kinds = [
        PacketKind::Handshake,
        PacketKind::StatusRequest,
        PacketKind::EncryptionResponse,
        PacketKind::TabComplete,
        PacketKind::UseEntity,
        PacketKind::CraftingBookData,
        PacketKind::AdvancementTab,
    ];
    for kind in kinds {
        assert_eq!(resolve(state_of(kind), id_of(kind)).unwrap(), kind);
    }
}

#[test]
fn ids_are_those_of_the_protocol() {
    assert_eq!(id_of(PacketKind::Handshake), 0x00);
    assert_eq!(id_of(PacketKind::StatusRequest), 0x00);
    assert_eq!(id_of(PacketKind::EncryptionResponse), 0x01);
    assert_eq!(id_of(PacketKind::TabComplete), 0x01);
    assert_eq!(id_of(PacketKind::UseEntity), 0x0a);
    assert_eq!(id_of(PacketKind::CraftingBookData), 0x17);
    assert_eq!(id_of(PacketKind::AdvancementTab), 0x19);
    assert_eq!(state_of(PacketKind::Handshake), ClientState::Handshake);
    assert_eq!(state_of(PacketKind::StatusRequest), ClientState::Status);
    assert_eq!(state_of(PacketKind::EncryptionResponse), ClientState::Login);
    assert_eq!(state_of(PacketKind::TabComplete), ClientState::Play);
    assert_eq!(state_of(PacketKind::UseEntity), ClientState::Play);
    assert_eq!(state_of(PacketKind::CraftingBookData), ClientState::Play);
    assert_eq!(state_of(PacketKind::AdvancementTab), ClientState::Play);
}

#[test]
fn an_id_means_something_only_in_its_state() {
    assert_eq!(resolve(ClientState::Play, 0x01).unwrap(), PacketKind::TabComplete);
    assert_eq!(resolve(ClientState::Login, 0x01).unwrap(), PacketKind::EncryptionResponse);
    assert!(matches!(
        resolve(ClientState::Status, 0x01),
        Err(Error::UnknownPacket { state: ClientState::Status, id: 0x01 })
    ));
    assert!(matches!(
        resolve(ClientState::Handshake, 0x0a),
        Err(Error::UnknownPacket { state: ClientState::Handshake, id: 0x0a })
    ));
    assert!(matches!(
        resolve(ClientState::Play, -1),
        Err(Error::UnknownPacket { state: ClientState::Play, id: -1 })
    ));
}
