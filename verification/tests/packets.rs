use serverbound::error::{Error, Malformed};
use serverbound::packets::{
    AdvancementTab, CraftingBookData, EncryptionResponse, ServerboundPacket, StatusRequest,
    TabComplete, UseEntity,
};
use serverbound::registry::PacketKind;
use serverbound::state::ClientState;
use serverbound::wire::Reader;

fn decode(bytes: &[u8], state: ClientState) -> Result<ServerboundPacket, Error> {
    let mut r = Reader::new(bytes);
    ServerboundPacket::deserialize(&mut r, &state)
}

fn round_trip(packet: ServerboundPacket, state: ClientState) {
    let mut bytes = packet.to_u8().unwrap();
    let written = bytes.len();
    bytes.extend_from_slice(&[0xde, 0xad]);
    let mut r = Reader::new(&bytes);
    let back = ServerboundPacket::deserialize(&mut r, &state).unwrap();
    assert_eq!(back, packet);
    assert_eq!(r.remaining(), bytes.len() - written);
}

#[test]
fn use_entity_interact_at_without_location_is_refused() {
    let packet = UseEntity { target: 5, action: 2, location: None, hand: Some(0) };
    assert!(matches!(packet.to_u8(), Err(Error::MissingField(2))));
}

#[test]
fn use_entity_without_hand_is_refused_with_its_action() {
    let packet = UseEntity { target: 5, action: 0, location: None, hand: None };
    assert!(matches!(packet.to_u8(), Err(Error::MissingField(0))));
    let packet = UseEntity {
        target: 5,
        action: 2,
        location: Some((0, 0, 0)),
        hand: None,
    };
    assert!(matches!(packet.to_u8(), Err(Error::MissingField(2))));
    let packet = ServerboundPacket::UseEntity(UseEntity {
        target: 5,
        action: 2,
        location: None,
        hand: None,
    });
    assert!(matches!(packet.to_u8(), Err(Error::MissingField(2))));
}

#[test]
fn use_entity_interact_writes_target_action_and_hand() {
    let packet = UseEntity { target: 300, action: 0, location: None, hand: Some(1) };
    assert_eq!(packet.to_u8().unwrap(), vec![0x0a, 0xac, 0x02, 0x00, 0x01]);
    round_trip(ServerboundPacket::UseEntity(packet), ClientState::Play);
}

#[test]
fn use_entity_attack_writes_neither_location_nor_hand() {
    let packet = UseEntity { target: 9, action: 1, location: None, hand: None };
    assert_eq!(packet.to_u8().unwrap(), vec![0x0a, 0x09, 0x01]);
    round_trip(ServerboundPacket::UseEntity(packet), ClientState::Play);
}

#[test]
fn use_entity_interact_at_writes_location_then_hand() {
    let location = (1.0f32.to_bits(), (-2.5f32).to_bits(), 0.0f32.to_bits());
    let packet = UseEntity { target: 9, action: 2, location: Some(location), hand: Some(1) };
    assert_eq!(
        packet.to_u8().unwrap(),
        vec![
            0x0a, 0x09, 0x02, 0x3f, 0x80, 0x00, 0x00, 0xc0, 0x20, 0x00, 0x00, 0x00, 0x00, 0x00,
            0x00, 0x01
        ]
    );
    round_trip(ServerboundPacket::UseEntity(packet), ClientState::Play);
}

#[test]
fn use_entity_leaves_out_fields_that_its_action_does_not_call_for() {
    let packet = UseEntity {
        target: 9,
        action: 1,
        location: Some((1, 2, 3)),
        hand: Some(1),
    };
    let bytes = packet.to_u8().unwrap();
    assert_eq!(bytes, vec![0x0a, 0x09, 0x01]);
    let back = decode(&bytes, ClientState::Play).unwrap();
    assert_eq!(
        back,
        ServerboundPacket::UseEntity(UseEntity {
            target: 9,
            action: 1,
            location: None,
            hand: None
        })
    );
}

#[test]
fn use_entity_with_an_unknown_action_has_no_optional_fields() {
    let bytes = [0x0a, 0x09, 0x07, 0x01];
    let mut r = Reader::new(&bytes);
    let back = ServerboundPacket::deserialize(&mut r, &ClientState::Play).unwrap();
    assert_eq!(
        back,
        ServerboundPacket::UseEntity(UseEntity {
            target: 9,
            action: 7,
            location: None,
            hand: None
        })
    );
    assert_eq!(r.remaining(), 1);
}

#[test]
fn use_entity_cut_short_takes_nothing() {
    let bytes = [0x0a, 0x09, 0x02, 0x3f, 0x80, 0x00, 0x00, 0xc0, 0x20];
    let mut r = Reader::new(&bytes);
    let res = ServerboundPacket::deserialize(&mut r, &ClientState::Play);
    assert!(matches!(res, Err(Error::IoFailure)));
    assert_eq!(r.remaining(), bytes.len());
    let mut r = Reader::new(&bytes[1..]);
    assert!(matches!(UseEntity::deserialize(&mut r), Err(Error::IoFailure)));
    assert_eq!(r.remaining(), bytes.len() - 1);
}

#[test]
fn tab_complete_without_block_is_exact() {
    let packet = TabComplete {
        text: "foo".to_string(),
        assume_command: true,
        looked_at_block: None,
    };
    let bytes = packet.to_u8().unwrap();
    assert_eq!(bytes, vec![0x01, 0x03, b'f', b'o', b'o', 0x01, 0x00]);
    let back = decode(&bytes, ClientState::Play).unwrap();
    assert_eq!(back, ServerboundPacket::TabComplete(packet));
}

#[test]
fn tab_complete_with_block_has_flag_and_position() {
    let packet = TabComplete {
        text: "/tp".to_string(),
        assume_command: false,
        looked_at_block: Some(0x0000_0100_0000_0040),
    };
    let bytes = packet.to_u8().unwrap();
    assert_eq!(
        bytes,
        vec![0x01, 0x03, b'/', b't', b'p', 0x00, 0x01, 0, 0, 1, 0, 0, 0, 0, 0x40]
    );
    round_trip(ServerboundPacket::TabComplete(packet), ClientState::Play);
}

#[test]
fn tab_complete_flag_without_position_is_an_io_failure() {
    let bytes = [0x03, b'f', b'o', b'o', 0x01, 0x01, 0, 0, 0];
    let mut r = Reader::new(&bytes);
    assert!(matches!(TabComplete::deserialize(&mut r), Err(Error::IoFailure)));
    assert_eq!(r.remaining(), bytes.len());
}

#[test]
fn tab_complete_flag_must_be_a_boolean() {
    let bytes = [0x03, b'f', b'o', b'o', 0x01, 0x03];
    let mut r = Reader::new(&bytes);
    assert!(matches!(
        TabComplete::deserialize(&mut r),
        Err(Error::MalformedPrimitive(Malformed::InvalidBool(3)))
    ));
    assert_eq!(r.remaining(), bytes.len());
}

#[test]
fn crafting_book_data_tag_2_is_invalid() {
    let res = decode(&[0x17, 0x02], ClientState::Play);
    assert!(matches!(res, Err(Error::InvalidVariant(2))));
    let bytes = [0x02u8, 0, 0, 0, 0];
    let mut r = Reader::new(&bytes);
    assert!(matches!(CraftingBookData::deserialize(&mut r), Err(Error::InvalidVariant(2))));
    assert_eq!(r.remaining(), 5);
}

#[test]
fn crafting_book_data_negative_tag_is_invalid() {
    let res = decode(&[0x17, 0xff, 0xff, 0xff, 0xff, 0x0f], ClientState::Play);
    assert!(matches!(res, Err(Error::InvalidVariant(-1))));
}

#[test]
fn crafting_book_data_recipe_goes_behind_tag_0() {
    let packet = CraftingBookData { displayed_recipe: Some(-2), crafting_book_status: None };
    assert_eq!(packet.to_u8().unwrap(), vec![0x17, 0x00, 0xff, 0xff, 0xff, 0xfe]);
    round_trip(ServerboundPacket::CraftingBookData(packet), ClientState::Play);
}

#[test]
fn crafting_book_data_status_goes_behind_tag_1() {
    let packet = CraftingBookData {
        displayed_recipe: None,
        crafting_book_status: Some((true, false)),
    };
    assert_eq!(packet.to_u8().unwrap(), vec![0x17, 0x01, 0x01, 0x00]);
    round_trip(ServerboundPacket::CraftingBookData(packet), ClientState::Play);
}

#[test]
fn crafting_book_data_with_neither_field_is_its_id_alone() {
    let packet = CraftingBookData { displayed_recipe: None, crafting_book_status: None };
    let bytes = packet.to_u8().unwrap();
    assert_eq!(bytes, vec![0x17]);
    assert!(matches!(decode(&bytes, ClientState::Play), Err(Error::IoFailure)));
}

#[test]
fn crafting_book_data_with_both_fields_writes_the_recipe() {
    let packet = CraftingBookData {
        displayed_recipe: Some(3),
        crafting_book_status: Some((true, true)),
    };
    let bytes = packet.to_u8().unwrap();
    assert_eq!(bytes, vec![0x17, 0x00, 0, 0, 0, 3]);
    assert_eq!(
        decode(&bytes, ClientState::Play).unwrap(),
        ServerboundPacket::CraftingBookData(CraftingBookData {
            displayed_recipe: Some(3),
            crafting_book_status: None
        })
    );
}

#[test]
fn advancement_tab_opened_is_tag_0_and_the_identifier() {
    let packet = AdvancementTab { tab_id: Some("root".to_string()) };
    let bytes = packet.to_u8().unwrap();
    assert_eq!(bytes, vec![0x19, 0x00, 0x04, b'r', b'o', b'o', b't']);
    assert_eq!(
        decode(&bytes, ClientState::Play).unwrap(),
        ServerboundPacket::AdvancementTab(packet)
    );
}

#[test]
fn advancement_tab_closed_is_tag_1_alone() {
    let packet = AdvancementTab { tab_id: None };
    let bytes = packet.to_u8().unwrap();
    assert_eq!(bytes, vec![0x19, 0x01]);
    assert_eq!(
        decode(&bytes, ClientState::Play).unwrap(),
        ServerboundPacket::AdvancementTab(packet)
    );
}

#[test]
fn advancement_tab_other_tag_is_invalid() {
    assert!(matches!(
        decode(&[0x19, 0x02, 0x00], ClientState::Play),
        Err(Error::InvalidVariant(2))
    ));
    let bytes = [0x05u8];
    let mut r = Reader::new(&bytes);
    assert!(matches!(AdvancementTab::deserialize(&mut r), Err(Error::InvalidVariant(5))));
    assert_eq!(r.remaining(), 1);
}

#[test]
fn advancement_tab_identifier_must_be_utf8() {
    assert!(matches!(
        decode(&[0x19, 0x00, 0x01, 0xff], ClientState::Play),
        Err(Error::MalformedPrimitive(Malformed::InvalidUtf8))
    ));
}

#[test]
fn status_request_is_its_id_alone() {
    let packet = StatusRequest {};
    assert_eq!(packet.to_u8().unwrap(), vec![0x00]);
    round_trip(ServerboundPacket::StatusRequest(packet), ClientState::Status);
}

#[test]
fn status_request_reads_nothing() {
    let bytes = [0x07u8, 0x08];
    let mut r = Reader::new(&bytes);
    let back = StatusRequest::deserialize(&mut r).unwrap();
    assert_eq!(back, ServerboundPacket::StatusRequest(StatusRequest {}));
    assert_eq!(r.remaining(), 2);
}

#[test]
fn encryption_response_is_two_prefixed_arrays() {
    let packet = EncryptionResponse::new(vec![1, 2, 3], vec![4, 5]);
    assert_eq!(packet.to_u8().unwrap(), vec![0x01, 3, 1, 2, 3, 2, 4, 5]);
    round_trip(packet, ClientState::Login);
}

#[test]
fn encryption_response_cut_short_takes_nothing() {
    let bytes = [0x01, 3, 1, 2, 3, 2, 4];
    let mut r = Reader::new(&bytes);
    let res = ServerboundPacket::deserialize(&mut r, &ClientState::Login);
    assert!(matches!(res, Err(Error::IoFailure)));
    assert_eq!(r.remaining(), bytes.len());
}

#[test]
fn unknown_id_is_reported_with_state_and_id() {
    assert!(matches!(
        decode(&[0x7f, 0x00], ClientState::Play),
        Err(Error::UnknownPacket { state: ClientState::Play, id: 0x7f })
    ));
    assert!(matches!(
        decode(&[0x0a, 0x00, 0x01], ClientState::Login),
        Err(Error::UnknownPacket { state: ClientState::Login, id: 0x0a })
    ));
}

#[test]
fn unknown_id_takes_nothing() {
    let bytes = [0x7f, 0x00];
    let mut r = Reader::new(&bytes);
    assert!(ServerboundPacket::deserialize(&mut r, &ClientState::Play).is_err());
    assert_eq!(r.remaining(), 2);
}

#[test]
fn empty_input_is_an_io_failure() {
    assert!(matches!(decode(&[], ClientState::Play), Err(Error::IoFailure)));
}

#[test]
fn overlong_id_is_malformed() {
    assert!(matches!(
        decode(&[0x81, 0x80, 0x80, 0x80, 0x80, 0x00], ClientState::Play),
        Err(Error::MalformedPrimitive(Malformed::VarIntTooLong))
    ));
}

#[test]
fn kind_names_the_variant() {
    assert_eq!(
        ServerboundPacket::StatusRequest(StatusRequest {}).kind(),
        PacketKind::StatusRequest
    );
    assert_eq!(
        ServerboundPacket::AdvancementTab(AdvancementTab { tab_id: None }).kind(),
        PacketKind::AdvancementTab
    );
    assert_eq!(EncryptionResponse::new(vec![], vec![]).kind(), PacketKind::EncryptionResponse);
    let packet = UseEntity { target: 1, action: 1, location: None, hand: None };
    assert_eq!(ServerboundPacket::UseEntity(packet).kind(), PacketKind::UseEntity);
}

#[test]
fn packets_follow_one_another_in_one_input() {
    let first = ServerboundPacket::AdvancementTab(AdvancementTab { tab_id: None });
    let second = ServerboundPacket::CraftingBookData(CraftingBookData {
        displayed_recipe: Some(77),
        crafting_book_status: None,
    });
    let mut bytes = first.to_u8().unwrap();
    bytes.extend_from_slice(&second.to_u8().unwrap());
    let mut r = Reader::new(&bytes);
    assert_eq!(ServerboundPacket::deserialize(&mut r, &ClientState::Play).unwrap(), first);
    assert_eq!(ServerboundPacket::deserialize(&mut r, &ClientState::Play).unwrap(), second);
    assert_eq!(r.remaining(), 0);
}
