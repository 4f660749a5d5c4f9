//! What holds between the writers and the parsers of the packets.

use crate::error::Error;
use crate::packets::{
    AdvancementTabView, CraftingBookData, EncryptionResponseView, HandshakeView,
    ServerboundPacketView, TabCompleteView, UseEntity,
};
use crate::registry::{lemma_registered_exact, registered, PacketKind};
use crate::state::ClientState;
use crate::wire::{
    bool_bytes, float_bytes, i32_bytes, is_suffix, lemma_bool_round_trip, lemma_float_round_trip,
    lemma_i32_round_trip, lemma_parse_bool_local, lemma_parse_float_local, lemma_parse_i32_local,
    lemma_parse_position_local, lemma_parse_prefixed_bound, lemma_parse_prefixed_local,
    lemma_parse_string_bound, lemma_parse_string_local, lemma_parse_u16_local,
    lemma_parse_varint_local, lemma_position_round_trip, lemma_prefixed_round_trip,
    lemma_string_round_trip, lemma_taken_in_turn, lemma_u16_round_trip, lemma_varint_round_trip,
    parse_bool, parse_float, parse_prefixed, parse_string, parse_u16, parse_varint,
    position_bytes, prefixed, string_bytes, taken, u16_bytes, varint_bytes,
};
use vstd::prelude::*;

verus! {

/// The fields of a handshake read back as the handshake, whatever follows
/// them.
pub proof fn lemma_handshake_round_trip(p: HandshakeView, rest: Seq<u8>)
    requires
        p.rejection() is None,
    ensures
        HandshakeView::parse(p.fields() + rest) == Ok::<(HandshakeView, Seq<u8>), Error>(
            (p, rest),
        ),
{
    let after_port = varint_bytes(p.next_state) + rest;
    let after_address = u16_bytes(p.server_port) + after_port;
    let after_version = string_bytes(p.server_address) + after_address;
    assert(p.fields() + rest =~= varint_bytes(p.protocol_version) + after_version);
    lemma_varint_round_trip(p.protocol_version, after_version);
    lemma_string_round_trip(p.server_address, after_address);
    lemma_u16_round_trip(p.server_port, after_port);
    lemma_varint_round_trip(p.next_state, rest);
}

/// The fields of an encryption response read back as the response, whatever
/// follows them.
pub proof fn lemma_encryption_response_round_trip(p: EncryptionResponseView, rest: Seq<u8>)
    requires
        p.rejection() is None,
    ensures
        EncryptionResponseView::parse(p.fields() + rest) == Ok::<
            (EncryptionResponseView, Seq<u8>),
            Error,
        >((p, rest)),
{
    let after_secret = prefixed(p.verify_token) + rest;
    assert(p.fields() + rest =~= prefixed(p.shared_secret) + after_secret);
    lemma_prefixed_round_trip(p.shared_secret, after_secret);
    lemma_prefixed_round_trip(p.verify_token, rest);
}

/// The fields of a tab completion read back as the packet, whatever follows
/// them.
pub proof fn lemma_tab_complete_round_trip(p: TabCompleteView, rest: Seq<u8>)
    requires
        p.rejection() is None,
    ensures
        TabCompleteView::parse(p.fields() + rest) == Ok::<(TabCompleteView, Seq<u8>), Error>(
            (p, rest),
        ),
{
    let block = match p.looked_at_block {
        Some(packed) => bool_bytes(true) + position_bytes(packed),
        None => bool_bytes(false),
    };
    let after_flag = block + rest;
    let after_text = bool_bytes(p.assume_command) + after_flag;
    assert(p.fields() + rest =~= string_bytes(p.text) + after_text);
    lemma_string_round_trip(p.text, after_text);
    lemma_bool_round_trip(p.assume_command, after_flag);
    match p.looked_at_block {
        Some(packed) => {
            assert(after_flag =~= bool_bytes(true) + (position_bytes(packed) + rest));
            lemma_bool_round_trip(true, position_bytes(packed) + rest);
            lemma_position_round_trip(packed, rest);
        },
        None => {
            lemma_bool_round_trip(false, rest);
        },
    }
}

/// The fields of a consistent entity use read back as the packet, whatever
/// follows them.
pub proof fn lemma_use_entity_round_trip(p: UseEntity, rest: Seq<u8>)
    requires
        p.consistent(),
    ensures
        UseEntity::parse(p.fields() + rest) == Ok::<(UseEntity, Seq<u8>), Error>((p, rest)),
{
    let after_location = p.hand_bytes() + rest;
    let after_action = p.location_bytes() + after_location;
    let after_target = varint_bytes(p.action) + after_action;
    assert(p.fields() + rest =~= varint_bytes(p.target) + after_target);
    lemma_varint_round_trip(p.target, after_target);
    lemma_varint_round_trip(p.action, after_action);
    match p.location {
        Some((x, y, z)) => {
            let after_y = float_bytes(z) + after_location;
            let after_x = float_bytes(y) + after_y;
            assert(after_action =~= float_bytes(x) + after_x);
            lemma_float_round_trip(x, after_x);
            lemma_float_round_trip(y, after_y);
            lemma_float_round_trip(z, after_location);
        },
        None => {
            assert(after_action =~= after_location);
        },
    }
    match p.hand {
        Some(hand) => {
            lemma_varint_round_trip(hand, rest);
        },
        None => {
            assert(after_location =~= rest);
        },
    }
}

/// The fields of a consistent crafting book packet read back as the packet,
/// whatever follows them.
pub proof fn lemma_crafting_book_data_round_trip(p: CraftingBookData, rest: Seq<u8>)
    requires
        p.consistent(),
    ensures
        CraftingBookData::parse(p.fields() + rest) == Ok::<(CraftingBookData, Seq<u8>), Error>(
            (p, rest),
        ),
{
    match p.displayed_recipe {
        Some(recipe) => {
            assert(p.fields() + rest =~= varint_bytes(0) + (i32_bytes(recipe) + rest));
            lemma_varint_round_trip(0, i32_bytes(recipe) + rest);
            lemma_i32_round_trip(recipe, rest);
        },
        None => {
            let (book_open, filter) = p.crafting_book_status->Some_0;
            let after_open = bool_bytes(filter) + rest;
            let after_tag = bool_bytes(book_open) + after_open;
            assert(p.fields() + rest =~= varint_bytes(1) + after_tag);
            lemma_varint_round_trip(1, after_tag);
            lemma_bool_round_trip(book_open, after_open);
            lemma_bool_round_trip(filter, rest);
        },
    }
}

/// The fields of an advancement tab packet read back as the packet, whatever
/// follows them.
pub proof fn lemma_advancement_tab_round_trip(p: AdvancementTabView, rest: Seq<u8>)
    requires
        p.rejection() is None,
    ensures
        AdvancementTabView::parse(p.fields() + rest) == Ok::<
            (AdvancementTabView, Seq<u8>),
            Error,
        >((p, rest)),
{
    match p.tab_id {
        Some(id) => {
            assert(p.fields() + rest =~= varint_bytes(0) + (string_bytes(id) + rest));
            lemma_varint_round_trip(0, string_bytes(id) + rest);
            lemma_string_round_trip(id, rest);
        },
        None => {
            lemma_varint_round_trip(1, rest);
        },
    }
}

/// A consistent packet can be written, and what was written reads back, in
/// the connection state of its kind, as the same packet; whatever followed it
/// in the input is left there untouched.
pub proof fn lemma_round_trip(p: ServerboundPacketView, rest: Seq<u8>)
    requires
        p.consistent(),
    ensures
        p.encoding() matches Ok(bytes) && ServerboundPacketView::parse(
            bytes + rest,
            p.kind().state(),
        ) == Ok::<(ServerboundPacketView, Seq<u8>), Error>((p, rest)),
{
    let kind = p.kind();
    let bytes = p.encoding()->Ok_0;
    let fields = p.fields();
    assert(bytes + rest =~= varint_bytes(kind.id()) + (fields + rest));
    lemma_varint_round_trip(kind.id(), fields + rest);
    lemma_registered_exact(kind.state(), kind.id(), kind);
    match p {
        ServerboundPacketView::Handshake(q) => lemma_handshake_round_trip(q, rest),
        ServerboundPacketView::StatusRequest => {
            assert(fields + rest =~= rest);
        },
        ServerboundPacketView::EncryptionResponse(q) => lemma_encryption_response_round_trip(
            q,
            rest,
        ),
        ServerboundPacketView::TabComplete(q) => lemma_tab_complete_round_trip(q, rest),
        ServerboundPacketView::UseEntity(q) => lemma_use_entity_round_trip(q, rest),
        ServerboundPacketView::CraftingBookData(q) => lemma_crafting_book_data_round_trip(
            q,
            rest,
        ),
        ServerboundPacketView::AdvancementTab(q) => lemma_advancement_tab_round_trip(q, rest),
    }
}

/// Whatever the parser gives is consistent and of a kind that is sent in the
/// state it was read in: the parser rebuilds the optional fields of a packet
/// from the value that announces them, and from nothing else.
pub proof fn lemma_parsed_is_consistent(s: Seq<u8>, state: ClientState)
    ensures
        ServerboundPacketView::parse(s, state) matches Ok((p, rest)) ==> p.consistent()
            && p.kind().state() == state,
{
    if let Ok((p, rest)) = ServerboundPacketView::parse(s, state) {
        let (id, body) = parse_varint(s)->Ok_0;
        let kind = registered(state, id)->Some_0;
        lemma_registered_exact(state, id, kind);
        match kind {
            PacketKind::Handshake => {
                let (version, after_version) = parse_varint(body)->Ok_0;
                lemma_parse_string_bound(after_version);
            },
            PacketKind::StatusRequest => {},
            PacketKind::EncryptionResponse => {
                lemma_parse_prefixed_bound(body);
                let (secret, after_secret) = parse_prefixed(body)->Ok_0;
                lemma_parse_prefixed_bound(after_secret);
            },
            PacketKind::TabComplete => {
                lemma_parse_string_bound(body);
            },
            PacketKind::UseEntity => {},
            PacketKind::CraftingBookData => {},
            PacketKind::AdvancementTab => {
                let (tag, after_tag) = parse_varint(body)->Ok_0;
                lemma_parse_string_bound(after_tag);
            },
        }
    }
}

/// Only a consistent packet reads back as itself: one that holds a field for
/// which its layout has no place loses it on the way.
pub proof fn lemma_round_trip_needs_consistency(p: ServerboundPacketView, state: ClientState)
    requires
        p.encoding() matches Ok(bytes) && ServerboundPacketView::parse(bytes, state) matches Ok(
            (q, rest),
        ) && q == p,
    ensures
        p.consistent(),
{
    lemma_parsed_is_consistent(p.encoding()->Ok_0, state);
}

/// Whatever is written starts with the id of the packet's kind, under which
/// the kind is found in its connection state.
pub proof fn lemma_encoding_starts_with_id(p: ServerboundPacketView)
    ensures
        p.encoding() matches Ok(bytes) ==> parse_varint(bytes) matches Ok((id, fields)) && id
            == p.kind().id() && registered(p.kind().state(), id) == Some(p.kind()),
{
    if let Ok(bytes) = p.encoding() {
        let kind = p.kind();
        let fields = p.fields();
        assert(bytes =~= varint_bytes(kind.id()) + fields);
        lemma_varint_round_trip(kind.id(), fields);
        lemma_registered_exact(kind.state(), kind.id(), kind);
    }
}

/// A handshake is read from its own bytes alone.
pub proof fn lemma_handshake_local(s: Seq<u8>, t: Seq<u8>)
    ensures
        HandshakeView::parse(s) matches Ok((p, rest)) ==> is_suffix(rest, s)
            && HandshakeView::parse(taken(s, rest) + t) == Ok::<(HandshakeView, Seq<u8>), Error>(
            (p, t),
        ),
{
    if let Ok((p, rest)) = HandshakeView::parse(s) {
        let (version, s1) = parse_varint(s)->Ok_0;
        let (address, s2) = parse_string(s1)->Ok_0;
        let (port, s3) = parse_u16(s2)->Ok_0;
        let u3 = taken(s3, rest) + t;
        let u2 = taken(s2, s3) + u3;
        let u1 = taken(s1, s2) + u2;
        lemma_parse_varint_local(s, u1);
        lemma_parse_string_local(s1, u2);
        lemma_parse_u16_local(s2, u3);
        lemma_parse_varint_local(s3, t);
        lemma_taken_in_turn(s2, s3, rest, t);
        lemma_taken_in_turn(s1, s2, rest, t);
        lemma_taken_in_turn(s, s1, rest, t);
    }
}

/// An encryption response is read from its own bytes alone.
pub proof fn lemma_encryption_response_local(s: Seq<u8>, t: Seq<u8>)
    ensures
        EncryptionResponseView::parse(s) matches Ok((p, rest)) ==> is_suffix(rest, s)
            && EncryptionResponseView::parse(taken(s, rest) + t) == Ok::<
            (EncryptionResponseView, Seq<u8>),
            Error,
        >((p, t)),
{
    if let Ok((p, rest)) = EncryptionResponseView::parse(s) {
        let (secret, s1) = parse_prefixed(s)->Ok_0;
        let u1 = taken(s1, rest) + t;
        lemma_parse_prefixed_local(s, u1);
        lemma_parse_prefixed_local(s1, t);
        lemma_taken_in_turn(s, s1, rest, t);
    }
}

/// The block of a tab completion is read from the flag and the position
/// alone.
pub proof fn lemma_looked_at_block_local(s: Seq<u8>, t: Seq<u8>)
    ensures
        TabCompleteView::parse_looked_at_block(s) matches Ok((block, rest)) ==> is_suffix(rest, s)
            && TabCompleteView::parse_looked_at_block(taken(s, rest) + t) == Ok::<
            (Option<u64>, Seq<u8>),
            Error,
        >((block, t)),
{
    if let Ok((block, rest)) = TabCompleteView::parse_looked_at_block(s) {
        let (present, s1) = parse_bool(s)->Ok_0;
        if present {
            let u1 = taken(s1, rest) + t;
            lemma_parse_bool_local(s, u1);
            lemma_parse_position_local(s1, t);
            lemma_taken_in_turn(s, s1, rest, t);
        } else {
            lemma_parse_bool_local(s, t);
        }
    }
}

/// A tab completion is read from its own bytes alone.
pub proof fn lemma_tab_complete_local(s: Seq<u8>, t: Seq<u8>)
    ensures
        TabCompleteView::parse(s) matches Ok((p, rest)) ==> is_suffix(rest, s)
            && TabCompleteView::parse(taken(s, rest) + t) == Ok::<
            (TabCompleteView, Seq<u8>),
            Error,
        >((p, t)),
{
    if let Ok((p, rest)) = TabCompleteView::parse(s) {
        let (text, s1) = parse_string(s)->Ok_0;
        let (assume_command, s2) = parse_bool(s1)->Ok_0;
        let u2 = taken(s2, rest) + t;
        let u1 = taken(s1, s2) + u2;
        lemma_parse_string_local(s, u1);
        lemma_parse_bool_local(s1, u2);
        lemma_looked_at_block_local(s2, t);
        lemma_taken_in_turn(s1, s2, rest, t);
        lemma_taken_in_turn(s, s1, rest, t);
    }
}

/// The location of an entity use is read from the three floats alone, or
/// from nothing where the action code calls for none.
pub proof fn lemma_location_local(s: Seq<u8>, action: i32, t: Seq<u8>)
    ensures
        UseEntity::parse_location(s, action) matches Ok((location, rest)) ==> is_suffix(rest, s)
            && UseEntity::parse_location(taken(s, rest) + t, action) == Ok::<
            (Option<(u32, u32, u32)>, Seq<u8>),
            Error,
        >((location, t)),
{
    if let Ok((location, rest)) = UseEntity::parse_location(s, action) {
        if UseEntity::has_location(action) {
            let (x, s1) = parse_float(s)->Ok_0;
            let (y, s2) = parse_float(s1)->Ok_0;
            let u2 = taken(s2, rest) + t;
            let u1 = taken(s1, s2) + u2;
            lemma_parse_float_local(s, u1);
            lemma_parse_float_local(s1, u2);
            lemma_parse_float_local(s2, t);
            lemma_taken_in_turn(s1, s2, rest, t);
            lemma_taken_in_turn(s, s1, rest, t);
        } else {
            assert(taken(s, rest) + t =~= t);
            assert(s.skip(0) =~= s);
        }
    }
}

/// The hand of an entity use is read from its own bytes alone, or from
/// nothing where the action code calls for none.
pub proof fn lemma_hand_local(s: Seq<u8>, action: i32, t: Seq<u8>)
    ensures
        UseEntity::parse_hand(s, action) matches Ok((hand, rest)) ==> is_suffix(rest, s)
            && UseEntity::parse_hand(taken(s, rest) + t, action) == Ok::<
            (Option<i32>, Seq<u8>),
            Error,
        >((hand, t)),
{
    if let Ok((hand, rest)) = UseEntity::parse_hand(s, action) {
        if UseEntity::has_hand(action) {
            lemma_parse_varint_local(s, t);
        } else {
            assert(taken(s, rest) + t =~= t);
            assert(s.skip(0) =~= s);
        }
    }
}

/// An entity use is read from its own bytes alone.
pub proof fn lemma_use_entity_local(s: Seq<u8>, t: Seq<u8>)
    ensures
        UseEntity::parse(s) matches Ok((p, rest)) ==> is_suffix(rest, s) && UseEntity::parse(
            taken(s, rest) + t,
        ) == Ok::<(UseEntity, Seq<u8>), Error>((p, t)),
{
    if let Ok((p, rest)) = UseEntity::parse(s) {
        let (target, s1) = parse_varint(s)->Ok_0;
        let (action, s2) = parse_varint(s1)->Ok_0;
        let (location, s3) = UseEntity::parse_location(s2, action)->Ok_0;
        let u3 = taken(s3, rest) + t;
        let u2 = taken(s2, s3) + u3;
        let u1 = taken(s1, s2) + u2;
        lemma_parse_varint_local(s, u1);
        lemma_parse_varint_local(s1, u2);
        lemma_location_local(s2, action, u3);
        lemma_hand_local(s3, action, t);
        lemma_taken_in_turn(s2, s3, rest, t);
        lemma_taken_in_turn(s1, s2, rest, t);
        lemma_taken_in_turn(s, s1, rest, t);
    }
}

/// The status of the crafting book is read from its two bytes alone.
pub proof fn lemma_status_local(s: Seq<u8>, t: Seq<u8>)
    ensures
        CraftingBookData::parse_status(s) matches Ok((status, rest)) ==> is_suffix(rest, s)
            && CraftingBookData::parse_status(taken(s, rest) + t) == Ok::<
            ((bool, bool), Seq<u8>),
            Error,
        >((status, t)),
{
    if let Ok((status, rest)) = CraftingBookData::parse_status(s) {
        let (book_open, s1) = parse_bool(s)->Ok_0;
        let u1 = taken(s1, rest) + t;
        lemma_parse_bool_local(s, u1);
        lemma_parse_bool_local(s1, t);
        lemma_taken_in_turn(s, s1, rest, t);
    }
}

/// A crafting book packet is read from its own bytes alone.
pub proof fn lemma_crafting_book_data_local(s: Seq<u8>, t: Seq<u8>)
    ensures
        CraftingBookData::parse(s) matches Ok((p, rest)) ==> is_suffix(rest, s)
            && CraftingBookData::parse(taken(s, rest) + t) == Ok::<
            (CraftingBookData, Seq<u8>),
            Error,
        >((p, t)),
{
    if let Ok((p, rest)) = CraftingBookData::parse(s) {
        let (tag, s1) = parse_varint(s)->Ok_0;
        let u1 = taken(s1, rest) + t;
        lemma_parse_varint_local(s, u1);
        if tag == 0 {
            lemma_parse_i32_local(s1, t);
        } else {
            lemma_status_local(s1, t);
        }
        lemma_taken_in_turn(s, s1, rest, t);
    }
}

/// An advancement tab packet is read from its own bytes alone.
pub proof fn lemma_advancement_tab_local(s: Seq<u8>, t: Seq<u8>)
    ensures
        AdvancementTabView::parse(s) matches Ok((p, rest)) ==> is_suffix(rest, s)
            && AdvancementTabView::parse(taken(s, rest) + t) == Ok::<
            (AdvancementTabView, Seq<u8>),
            Error,
        >((p, t)),
{
    if let Ok((p, rest)) = AdvancementTabView::parse(s) {
        let (tag, s1) = parse_varint(s)->Ok_0;
        let u1 = taken(s1, rest) + t;
        lemma_parse_varint_local(s, u1);
        if tag == 0 {
            lemma_parse_string_local(s1, t);
        } else {
            assert(taken(s1, rest) + t =~= t);
            assert(s1.skip(0) =~= s1);
        }
        lemma_taken_in_turn(s, s1, rest, t);
    }
}

/// A packet is read from its own bytes alone: what is left of the input is
/// the input without the bytes that were read, and the same bytes followed by
/// anything else give the same packet and leave what followed them.
pub proof fn lemma_parse_is_local(s: Seq<u8>, state: ClientState, t: Seq<u8>)
    ensures
        ServerboundPacketView::parse(s, state) matches Ok((p, rest)) ==> is_suffix(rest, s)
            && ServerboundPacketView::parse(taken(s, rest) + t, state) == Ok::<
            (ServerboundPacketView, Seq<u8>),
            Error,
        >((p, t)),
{
    if let Ok((p, rest)) = ServerboundPacketView::parse(s, state) {
        let (id, s1) = parse_varint(s)->Ok_0;
        let kind = registered(state, id)->Some_0;
        let u1 = taken(s1, rest) + t;
        lemma_parse_varint_local(s, u1);
        match kind {
            PacketKind::Handshake => lemma_handshake_local(s1, t),
            PacketKind::StatusRequest => {
                assert(taken(s1, rest) + t =~= t);
                assert(s1.skip(0) =~= s1);
            },
            PacketKind::EncryptionResponse => lemma_encryption_response_local(s1, t),
            PacketKind::TabComplete => lemma_tab_complete_local(s1, t),
            PacketKind::UseEntity => lemma_use_entity_local(s1, t),
            PacketKind::CraftingBookData => lemma_crafting_book_data_local(s1, t),
            PacketKind::AdvancementTab => lemma_advancement_tab_local(s1, t),
        }
        lemma_taken_in_turn(s, s1, rest, t);
    }
}

} // verus!
