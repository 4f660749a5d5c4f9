//! The wire layout of each packet: the bytes it is written as and the parser
//! that reads it back.
//!
//! Several layouts branch on a value inside the packet. The writer emits
//! exactly the fields that this value calls for and refuses a packet that
//! lacks one of them; the parser reads the value first and then exactly the
//! fields that it calls for.

use crate::error::{Error, Malformed};
use crate::laws::lemma_parsed_is_consistent;
use crate::packets::{
    AdvancementTab, AdvancementTabView, CraftingBookData, EncryptionResponse,
    EncryptionResponseView, Handshake, HandshakeView, ServerboundPacket, ServerboundPacketView,
    StatusRequest, TabComplete, TabCompleteView, UseEntity,
};
use crate::registry::{id_of, registered, resolve, PacketKind};
use crate::state::ClientState;
use crate::wire::{
    bool_bytes, float_bytes, i32_bytes, parse_bool, parse_float, parse_i32, parse_position,
    parse_prefixed, parse_string, parse_u16, parse_varint, position_bytes, prefixed, read_bool,
    read_bytearray, read_float, read_i32, read_position, read_string, read_u16, read_varint,
    string_bytes, u16_bytes, varint_bytes, write_bool, write_bytearray, write_float, write_i32,
    write_position, write_string, write_u16, write_varint, Reader, MAX_LENGTH,
};
use vstd::prelude::*;
use vstd::utf8::encode_utf8;

verus! {

impl TabCompleteView {
    /// Why this packet cannot be written, if it cannot.
    pub open spec fn rejection(self) -> Option<Error> {
        if encode_utf8(self.text).len() > MAX_LENGTH {
            Some(Error::MalformedPrimitive(Malformed::InvalidLength))
        } else {
            None
        }
    }

    /// The text, the flag, and then a presence flag that is followed by the
    /// position exactly when it is set.
    pub open spec fn fields(self) -> Seq<u8> {
        string_bytes(self.text) + bool_bytes(self.assume_command) + match self.looked_at_block {
            Some(packed) => bool_bytes(true) + position_bytes(packed),
            None => bool_bytes(false),
        }
    }

    /// The whole packet: its id and then its fields.
    pub open spec fn encoding(self) -> Result<Seq<u8>, Error> {
        match self.rejection() {
            Some(e) => Err(e),
            None => Ok(varint_bytes(PacketKind::TabComplete.id()) + self.fields()),
        }
    }

    /// Reads the position if the presence flag says that one follows.
    pub open spec fn parse_looked_at_block(s: Seq<u8>) -> Result<(Option<u64>, Seq<u8>), Error> {
        match parse_bool(s) {
            Ok((present, rest)) => if present {
                match parse_position(rest) {
                    Ok((packed, rest)) => Ok((Some(packed), rest)),
                    Err(e) => Err(e),
                }
            } else {
                Ok((None, rest))
            },
            Err(e) => Err(e),
        }
    }

    /// Reads the fields of the packet.
    pub open spec fn parse(s: Seq<u8>) -> Result<(TabCompleteView, Seq<u8>), Error> {
        match parse_string(s) {
            Ok((text, rest)) => match parse_bool(rest) {
                Ok((assume_command, rest)) => match Self::parse_looked_at_block(rest) {
                    Ok((looked_at_block, rest)) => Ok(
                        (TabCompleteView { text, assume_command, looked_at_block }, rest),
                    ),
                    Err(e) => Err(e),
                },
                Err(e) => Err(e),
            },
            Err(e) => Err(e),
        }
    }
}

impl TabComplete {
    /// The bytes of this packet, id first.
    pub fn to_u8(&self) -> (res: Result<Vec<u8>, Error>)
        ensures
            match self@.encoding() {
                Ok(bytes) => res matches Ok(out) && out@ == bytes,
                Err(e) => res matches Err(f) && f == e,
            },
    {
        let mut ret = Vec::new();
        write_varint(id_of(PacketKind::TabComplete), &mut ret);
        match write_string(self.text.as_str(), &mut ret) {
            Ok(()) => {},
            Err(e) => {
                return Err(e);
            },
        }
        write_bool(self.assume_command, &mut ret);
        match self.looked_at_block {
            Some(packed) => {
                write_bool(true, &mut ret);
                write_position(packed, &mut ret);
            },
            None => {
                write_bool(false, &mut ret);
            },
        }
        assert(ret@ =~= varint_bytes(PacketKind::TabComplete.id()) + self@.fields());
        Ok(ret)
    }

    /// Reads the fields of a packet whose id has been read.
    pub fn deserialize(r: &mut Reader) -> (res: Result<ServerboundPacket, Error>)
        ensures
            match TabCompleteView::parse(old(r)@) {
                Ok((packet, rest)) => res matches Ok(found) && found@
                    == ServerboundPacketView::TabComplete(packet) && final(r)@ == rest,
                Err(e) => res matches Err(f) && f == e && final(r)@ == old(r)@,
            },
    {
        let mut probe = *r;
        let text = match read_string(&mut probe) {
            Ok(text) => text,
            Err(e) => {
                return Err(e);
            },
        };
        let assume_command = match read_bool(&mut probe) {
            Ok(flag) => flag,
            Err(e) => {
                return Err(e);
            },
        };
        let has_position = match read_bool(&mut probe) {
            Ok(flag) => flag,
            Err(e) => {
                return Err(e);
            },
        };
        let looked_at_block = if has_position {
            match read_position(&mut probe) {
                Ok(packed) => Some(packed),
                Err(e) => {
                    return Err(e);
                },
            }
        } else {
            None
        };
        *r = probe;
        Ok(ServerboundPacket::TabComplete(TabComplete { text, assume_command, looked_at_block }))
    }
}

impl UseEntity {
    /// Why this packet cannot be written, if it cannot: its action code calls
    /// for a field that it does not have.
    pub open spec fn rejection(self) -> Option<Error> {
        if Self::has_location(self.action) && self.location is None {
            Some(Error::MissingField(self.action))
        } else if Self::has_hand(self.action) && self.hand is None {
            Some(Error::MissingField(self.action))
        } else {
            None
        }
    }

    /// The three coordinates, if the action code calls for a location.
    pub open spec fn location_bytes(self) -> Seq<u8> {
        match self.location {
            Some((x, y, z)) if Self::has_location(self.action) => float_bytes(x) + float_bytes(y)
                + float_bytes(z),
            _ => Seq::empty(),
        }
    }

    /// The hand, if the action code calls for one.
    pub open spec fn hand_bytes(self) -> Seq<u8> {
        match self.hand {
            Some(hand) if Self::has_hand(self.action) => varint_bytes(hand),
            _ => Seq::empty(),
        }
    }

    /// The target, the action code, and then the fields that the action code
    /// calls for and no others.
    pub open spec fn fields(self) -> Seq<u8> {
        varint_bytes(self.target) + varint_bytes(self.action) + self.location_bytes()
            + self.hand_bytes()
    }

    /// The whole packet: its id and then its fields.
    pub open spec fn encoding(self) -> Result<Seq<u8>, Error> {
        match self.rejection() {
            Some(e) => Err(e),
            None => Ok(varint_bytes(PacketKind::UseEntity.id()) + self.fields()),
        }
    }

    /// Reads three floats if `action` calls for a location, and nothing
    /// otherwise.
    pub open spec fn parse_location(s: Seq<u8>, action: i32) -> Result<
        (Option<(u32, u32, u32)>, Seq<u8>),
        Error,
    > {
        if Self::has_location(action) {
            match parse_float(s) {
                Ok((x, rest)) => match parse_float(rest) {
                    Ok((y, rest)) => match parse_float(rest) {
                        Ok((z, rest)) => Ok((Some((x, y, z)), rest)),
                        Err(e) => Err(e),
                    },
                    Err(e) => Err(e),
                },
                Err(e) => Err(e),
            }
        } else {
            Ok((None, s))
        }
    }

    /// Reads a hand if `action` calls for one, and nothing otherwise.
    pub open spec fn parse_hand(s: Seq<u8>, action: i32) -> Result<(Option<i32>, Seq<u8>), Error> {
        if Self::has_hand(action) {
            match parse_varint(s) {
                Ok((hand, rest)) => Ok((Some(hand), rest)),
                Err(e) => Err(e),
            }
        } else {
            Ok((None, s))
        }
    }

    /// Reads the fields of the packet.
    pub open spec fn parse(s: Seq<u8>) -> Result<(UseEntity, Seq<u8>), Error> {
        match parse_varint(s) {
            Ok((target, rest)) => match parse_varint(rest) {
                Ok((action, rest)) => match Self::parse_location(rest, action) {
                    Ok((location, rest)) => match Self::parse_hand(rest, action) {
                        Ok((hand, rest)) => Ok((UseEntity { target, action, location, hand }, rest)),
                        Err(e) => Err(e),
                    },
                    Err(e) => Err(e),
                },
                Err(e) => Err(e),
            },
            Err(e) => Err(e),
        }
    }

    /// The bytes of this packet, id first.
    pub fn to_u8(&self) -> (res: Result<Vec<u8>, Error>)
        ensures
            match self@.encoding() {
                Ok(bytes) => res matches Ok(out) && out@ == bytes,
                Err(e) => res matches Err(f) && f == e,
            },
    {
        let mut ret = Vec::new();
        write_varint(id_of(PacketKind::UseEntity), &mut ret);
        write_varint(self.target, &mut ret);
        write_varint(self.action, &mut ret);
        if self.action == 2 {
            match self.location {
                Some((x, y, z)) => {
                    write_float(x, &mut ret);
                    write_float(y, &mut ret);
                    write_float(z, &mut ret);
                },
                None => {
                    return Err(Error::MissingField(self.action));
                },
            }
        }
        assert(ret@ =~= varint_bytes(PacketKind::UseEntity.id()) + (varint_bytes(self.target)
            + varint_bytes(self.action)
            + self.location_bytes()));
        if self.action == 0 || self.action == 2 {
            match self.hand {
                Some(hand) => {
                    write_varint(hand, &mut ret);
                },
                None => {
                    return Err(Error::MissingField(self.action));
                },
            }
        }
        assert(ret@ =~= varint_bytes(PacketKind::UseEntity.id()) + self.fields());
        Ok(ret)
    }

    /// Reads the fields of a packet whose id has been read.
    pub fn deserialize(r: &mut Reader) -> (res: Result<ServerboundPacket, Error>)
        ensures
            match UseEntity::parse(old(r)@) {
                Ok((packet, rest)) => res matches Ok(found) && found@
                    == ServerboundPacketView::UseEntity(packet) && final(r)@ == rest,
                Err(e) => res matches Err(f) && f == e && final(r)@ == old(r)@,
            },
    {
        let mut probe = *r;
        let target = match read_varint(&mut probe) {
            Ok(target) => target,
            Err(e) => {
                return Err(e);
            },
        };
        let action = match read_varint(&mut probe) {
            Ok(action) => action,
            Err(e) => {
                return Err(e);
            },
        };
        let location = if action == 2 {
            let x = match read_float(&mut probe) {
                Ok(x) => x,
                Err(e) => {
                    return Err(e);
                },
            };
            let y = match read_float(&mut probe) {
                Ok(y) => y,
                Err(e) => {
                    return Err(e);
                },
            };
            let z = match read_float(&mut probe) {
                Ok(z) => z,
                Err(e) => {
                    return Err(e);
                },
            };
            Some((x, y, z))
        } else {
            None
        };
        let hand = if action == 0 || action == 2 {
            match read_varint(&mut probe) {
                Ok(hand) => Some(hand),
                Err(e) => {
                    return Err(e);
                },
            }
        } else {
            None
        };
        *r = probe;
        Ok(ServerboundPacket::UseEntity(UseEntity { target, action, location, hand }))
    }
}

impl CraftingBookData {
    /// The displayed recipe goes behind tag 0; if there is none, the status of
    /// the book goes behind tag 1; a packet with neither has no fields at all,
    /// not even a tag.
    pub open spec fn fields(self) -> Seq<u8> {
        match self.displayed_recipe {
            Some(recipe) => varint_bytes(0) + i32_bytes(recipe),
            None => match self.crafting_book_status {
                Some((book_open, filter)) => varint_bytes(1) + bool_bytes(book_open) + bool_bytes(
                    filter,
                ),
                None => Seq::empty(),
            },
        }
    }

    /// The whole packet: its id and then its fields. Every value can be
    /// written.
    pub open spec fn encoding(self) -> Result<Seq<u8>, Error> {
        Ok(varint_bytes(PacketKind::CraftingBookData.id()) + self.fields())
    }

    /// Reads the two flags of the book's status.
    pub open spec fn parse_status(s: Seq<u8>) -> Result<((bool, bool), Seq<u8>), Error> {
        match parse_bool(s) {
            Ok((book_open, rest)) => match parse_bool(rest) {
                Ok((filter, rest)) => Ok(((book_open, filter), rest)),
                Err(e) => Err(e),
            },
            Err(e) => Err(e),
        }
    }

    /// Reads the tag and then the one field that it announces. Only 0 and 1
    /// are tags.
    pub open spec fn parse(s: Seq<u8>) -> Result<(CraftingBookData, Seq<u8>), Error> {
        match parse_varint(s) {
            Ok((tag, rest)) => if tag == 0 {
                match parse_i32(rest) {
                    Ok((recipe, rest)) => Ok(
                        (
                            CraftingBookData {
                                displayed_recipe: Some(recipe),
                                crafting_book_status: None,
                            },
                            rest,
                        ),
                    ),
                    Err(e) => Err(e),
                }
            } else if tag == 1 {
                match Self::parse_status(rest) {
                    Ok((status, rest)) => Ok(
                        (
                            CraftingBookData {
                                displayed_recipe: None,
                                crafting_book_status: Some(status),
                            },
                            rest,
                        ),
                    ),
                    Err(e) => Err(e),
                }
            } else {
                Err(Error::InvalidVariant(tag))
            },
            Err(e) => Err(e),
        }
    }

    /// The bytes of this packet, id first.
    pub fn to_u8(&self) -> (res: Result<Vec<u8>, Error>)
        ensures
            match self@.encoding() {
                Ok(bytes) => res matches Ok(out) && out@ == bytes,
                Err(e) => res matches Err(f) && f == e,
            },
    {
        let mut ret = Vec::new();
        write_varint(id_of(PacketKind::CraftingBookData), &mut ret);
        if let Some(recipe) = self.displayed_recipe {
            write_varint(0, &mut ret);
            write_i32(recipe, &mut ret);
        } else if let Some((book_open, filter)) = self.crafting_book_status {
            write_varint(1, &mut ret);
            write_bool(book_open, &mut ret);
            write_bool(filter, &mut ret);
        }
        assert(ret@ =~= varint_bytes(PacketKind::CraftingBookData.id()) + self.fields());
        Ok(ret)
    }

    /// Reads the fields of a packet whose id has been read.
    pub fn deserialize(r: &mut Reader) -> (res: Result<ServerboundPacket, Error>)
        ensures
            match CraftingBookData::parse(old(r)@) {
                Ok((packet, rest)) => res matches Ok(found) && found@
                    == ServerboundPacketView::CraftingBookData(packet) && final(r)@ == rest,
                Err(e) => res matches Err(f) && f == e && final(r)@ == old(r)@,
            },
    {
        let mut probe = *r;
        let tag = match read_varint(&mut probe) {
            Ok(tag) => tag,
            Err(e) => {
                return Err(e);
            },
        };
        let (recipe, status) = match tag {
            0 => match read_i32(&mut probe) {
                Ok(recipe) => (Some(recipe), None),
                Err(e) => {
                    return Err(e);
                },
            },
            1 => {
                let book_open = match read_bool(&mut probe) {
                    Ok(flag) => flag,
                    Err(e) => {
                        return Err(e);
                    },
                };
                let filter = match read_bool(&mut probe) {
                    Ok(flag) => flag,
                    Err(e) => {
                        return Err(e);
                    },
                };
                (None, Some((book_open, filter)))
            },
            _ => {
                return Err(Error::InvalidVariant(tag));
            },
        };
        *r = probe;
        Ok(
            ServerboundPacket::CraftingBookData(
                CraftingBookData { displayed_recipe: recipe, crafting_book_status: status },
            ),
        )
    }
}

impl AdvancementTabView {
    /// Why this packet cannot be written, if it cannot.
    pub open spec fn rejection(self) -> Option<Error> {
        match self.tab_id {
            Some(id) if encode_utf8(id).len() > MAX_LENGTH => Some(
                Error::MalformedPrimitive(Malformed::InvalidLength),
            ),
            _ => None,
        }
    }

    /// Tag 0 and the identifier when a tab was opened, tag 1 alone when the
    /// screen was closed.
    pub open spec fn fields(self) -> Seq<u8> {
        match self.tab_id {
            Some(id) => varint_bytes(0) + string_bytes(id),
            None => varint_bytes(1),
        }
    }

    /// The whole packet: its id and then its fields.
    pub open spec fn encoding(self) -> Result<Seq<u8>, Error> {
        match self.rejection() {
            Some(e) => Err(e),
            None => Ok(varint_bytes(PacketKind::AdvancementTab.id()) + self.fields()),
        }
    }

    /// Reads the tag, and the identifier if the tag is 0. Only 0 and 1 are
    /// tags.
    pub open spec fn parse(s: Seq<u8>) -> Result<(AdvancementTabView, Seq<u8>), Error> {
        match parse_varint(s) {
            Ok((tag, rest)) => if tag == 0 {
                match parse_string(rest) {
                    Ok((id, rest)) => Ok((AdvancementTabView { tab_id: Some(id) }, rest)),
                    Err(e) => Err(e),
                }
            } else if tag == 1 {
                Ok((AdvancementTabView { tab_id: None }, rest))
            } else {
                Err(Error::InvalidVariant(tag))
            },
            Err(e) => Err(e),
        }
    }
}

impl AdvancementTab {
    /// The bytes of this packet, id first.
    pub fn to_u8(&self) -> (res: Result<Vec<u8>, Error>)
        ensures
            match self@.encoding() {
                Ok(bytes) => res matches Ok(out) && out@ == bytes,
                Err(e) => res matches Err(f) && f == e,
            },
    {
        let mut ret = Vec::new();
        write_varint(id_of(PacketKind::AdvancementTab), &mut ret);
        if let Some(ref tab_id) = self.tab_id {
            write_varint(0, &mut ret);
            match write_string(tab_id.as_str(), &mut ret) {
                Ok(()) => {},
                Err(e) => {
                    return Err(e);
                },
            }
        } else {
            write_varint(1, &mut ret);
        }
        assert(ret@ =~= varint_bytes(PacketKind::AdvancementTab.id()) + self@.fields());
        Ok(ret)
    }

    /// Reads the fields of a packet whose id has been read.
    pub fn deserialize(r: &mut Reader) -> (res: Result<ServerboundPacket, Error>)
        ensures
            match AdvancementTabView::parse(old(r)@) {
                Ok((packet, rest)) => res matches Ok(found) && found@
                    == ServerboundPacketView::AdvancementTab(packet) && final(r)@ == rest,
                Err(e) => res matches Err(f) && f == e && final(r)@ == old(r)@,
            },
    {
        let mut probe = *r;
        let action = match read_varint(&mut probe) {
            Ok(action) => action,
            Err(e) => {
                return Err(e);
            },
        };
        let tab_id = match action {
            0 => match read_string(&mut probe) {
                Ok(id) => Some(id),
                Err(e) => {
                    return Err(e);
                },
            },
            1 => None,
            _ => {
                return Err(Error::InvalidVariant(action));
            },
        };
        *r = probe;
        Ok(ServerboundPacket::AdvancementTab(AdvancementTab { tab_id }))
    }
}

impl StatusRequest {
    /// The whole packet is its id.
    pub open spec fn encoding() -> Result<Seq<u8>, Error> {
        Ok(varint_bytes(PacketKind::StatusRequest.id()))
    }

    /// The bytes of this packet: its id and nothing else.
    pub fn to_u8(&self) -> (res: Result<Vec<u8>, Error>)
        ensures
            res matches Ok(out) && Self::encoding() == Ok::<Seq<u8>, Error>(out@),
    {
        let mut ret = Vec::new();
        write_varint(id_of(PacketKind::StatusRequest), &mut ret);
        assert(ret@ =~= varint_bytes(PacketKind::StatusRequest.id()));
        Ok(ret)
    }

    /// There is nothing to read: the input is left as it is.
    pub fn deserialize(r: &mut Reader) -> (res: Result<ServerboundPacket, Error>)
        ensures
            res matches Ok(found) && found@ == ServerboundPacketView::StatusRequest,
            final(r)@ == old(r)@,
    {
        Ok(ServerboundPacket::StatusRequest(StatusRequest {  }))
    }
}

impl HandshakeView {
    /// Why this packet cannot be written, if it cannot.
    pub open spec fn rejection(self) -> Option<Error> {
        if encode_utf8(self.server_address).len() > MAX_LENGTH {
            Some(Error::MalformedPrimitive(Malformed::InvalidLength))
        } else {
            None
        }
    }

    /// The four fields in their order.
    pub open spec fn fields(self) -> Seq<u8> {
        varint_bytes(self.protocol_version) + string_bytes(self.server_address) + u16_bytes(
            self.server_port,
        ) + varint_bytes(self.next_state)
    }

    /// The whole packet: its id and then its fields.
    pub open spec fn encoding(self) -> Result<Seq<u8>, Error> {
        match self.rejection() {
            Some(e) => Err(e),
            None => Ok(varint_bytes(PacketKind::Handshake.id()) + self.fields()),
        }
    }

    /// Reads the fields of the packet.
    pub open spec fn parse(s: Seq<u8>) -> Result<(HandshakeView, Seq<u8>), Error> {
        match parse_varint(s) {
            Ok((protocol_version, rest)) => match parse_string(rest) {
                Ok((server_address, rest)) => match parse_u16(rest) {
                    Ok((server_port, rest)) => match parse_varint(rest) {
                        Ok((next_state, rest)) => Ok(
                            (
                                HandshakeView {
                                    protocol_version,
                                    server_address,
                                    server_port,
                                    next_state,
                                },
                                rest,
                            ),
                        ),
                        Err(e) => Err(e),
                    },
                    Err(e) => Err(e),
                },
                Err(e) => Err(e),
            },
            Err(e) => Err(e),
        }
    }
}

impl Handshake {
    /// The bytes of this packet, id first.
    pub fn to_u8(&self) -> (res: Result<Vec<u8>, Error>)
        ensures
            match self@.encoding() {
                Ok(bytes) => res matches Ok(out) && out@ == bytes,
                Err(e) => res matches Err(f) && f == e,
            },
    {
        let mut ret = Vec::new();
        write_varint(id_of(PacketKind::Handshake), &mut ret);
        write_varint(self.protocol_version, &mut ret);
        match write_string(self.server_address.as_str(), &mut ret) {
            Ok(()) => {},
            Err(e) => {
                return Err(e);
            },
        }
        write_u16(self.server_port, &mut ret);
        write_varint(self.next_state, &mut ret);
        assert(ret@ =~= varint_bytes(PacketKind::Handshake.id()) + self@.fields());
        Ok(ret)
    }

    /// Reads the fields of a packet whose id has been read.
    pub fn deserialize(r: &mut Reader) -> (res: Result<ServerboundPacket, Error>)
        ensures
            match HandshakeView::parse(old(r)@) {
                Ok((packet, rest)) => res matches Ok(found) && found@
                    == ServerboundPacketView::Handshake(packet) && final(r)@ == rest,
                Err(e) => res matches Err(f) && f == e && final(r)@ == old(r)@,
            },
    {
        let mut probe = *r;
        let protocol_version = match read_varint(&mut probe) {
            Ok(version) => version,
            Err(e) => {
                return Err(e);
            },
        };
        let server_address = match read_string(&mut probe) {
            Ok(address) => address,
            Err(e) => {
                return Err(e);
            },
        };
        let server_port = match read_u16(&mut probe) {
            Ok(port) => port,
            Err(e) => {
                return Err(e);
            },
        };
        let next_state = match read_varint(&mut probe) {
            Ok(next) => next,
            Err(e) => {
                return Err(e);
            },
        };
        *r = probe;
        Ok(
            ServerboundPacket::Handshake(
                Handshake { protocol_version, server_address, server_port, next_state },
            ),
        )
    }
}

impl EncryptionResponseView {
    /// Why this packet cannot be written, if it cannot.
    pub open spec fn rejection(self) -> Option<Error> {
        if self.shared_secret.len() > MAX_LENGTH || self.verify_token.len() > MAX_LENGTH {
            Some(Error::MalformedPrimitive(Malformed::InvalidLength))
        } else {
            None
        }
    }

    /// The two ciphertexts, each behind its length.
    pub open spec fn fields(self) -> Seq<u8> {
        prefixed(self.shared_secret) + prefixed(self.verify_token)
    }

    /// The whole packet: its id and then its fields.
    pub open spec fn encoding(self) -> Result<Seq<u8>, Error> {
        match self.rejection() {
            Some(e) => Err(e),
            None => Ok(varint_bytes(PacketKind::EncryptionResponse.id()) + self.fields()),
        }
    }

    /// Reads the fields of the packet.
    pub open spec fn parse(s: Seq<u8>) -> Result<(EncryptionResponseView, Seq<u8>), Error> {
        match parse_prefixed(s) {
            Ok((shared_secret, rest)) => match parse_prefixed(rest) {
                Ok((verify_token, rest)) => Ok(
                    (EncryptionResponseView { shared_secret, verify_token }, rest),
                ),
                Err(e) => Err(e),
            },
            Err(e) => Err(e),
        }
    }
}

impl EncryptionResponse {
    /// The bytes of this packet, id first.
    pub fn to_u8(&self) -> (res: Result<Vec<u8>, Error>)
        ensures
            match self@.encoding() {
                Ok(bytes) => res matches Ok(out) && out@ == bytes,
                Err(e) => res matches Err(f) && f == e,
            },
    {
        let mut ret = Vec::new();
        write_varint(id_of(PacketKind::EncryptionResponse), &mut ret);
        match write_bytearray(self.shared_secret.as_slice(), &mut ret) {
            Ok(()) => {},
            Err(e) => {
                return Err(e);
            },
        }
        match write_bytearray(self.verify_token.as_slice(), &mut ret) {
            Ok(()) => {},
            Err(e) => {
                return Err(e);
            },
        }
        assert(ret@ =~= varint_bytes(PacketKind::EncryptionResponse.id()) + self@.fields());
        Ok(ret)
    }

    /// Reads the fields of a packet whose id has been read.
    pub fn deserialize(r: &mut Reader) -> (res: Result<ServerboundPacket, Error>)
        ensures
            match EncryptionResponseView::parse(old(r)@) {
                Ok((packet, rest)) => res matches Ok(found) && found@
                    == ServerboundPacketView::EncryptionResponse(packet) && final(r)@ == rest,
                Err(e) => res matches Err(f) && f == e && final(r)@ == old(r)@,
            },
    {
        let mut probe = *r;
        let shared_secret = match read_bytearray(&mut probe) {
            Ok(bytes) => bytes,
            Err(e) => {
                return Err(e);
            },
        };
        let verify_token = match read_bytearray(&mut probe) {
            Ok(bytes) => bytes,
            Err(e) => {
                return Err(e);
            },
        };
        *r = probe;
        Ok(EncryptionResponse::new(shared_secret, verify_token))
    }
}

impl ServerboundPacketView {
    /// The kind of this packet.
    pub open spec fn kind(self) -> PacketKind {
        match self {
            ServerboundPacketView::Handshake(_) => PacketKind::Handshake,
            ServerboundPacketView::StatusRequest => PacketKind::StatusRequest,
            ServerboundPacketView::EncryptionResponse(_) => PacketKind::EncryptionResponse,
            ServerboundPacketView::TabComplete(_) => PacketKind::TabComplete,
            ServerboundPacketView::UseEntity(_) => PacketKind::UseEntity,
            ServerboundPacketView::CraftingBookData(_) => PacketKind::CraftingBookData,
            ServerboundPacketView::AdvancementTab(_) => PacketKind::AdvancementTab,
        }
    }

    /// The bytes of the packet's fields, which follow its id on the wire.
    pub open spec fn fields(self) -> Seq<u8> {
        match self {
            ServerboundPacketView::Handshake(p) => p.fields(),
            ServerboundPacketView::StatusRequest => Seq::empty(),
            ServerboundPacketView::EncryptionResponse(p) => p.fields(),
            ServerboundPacketView::TabComplete(p) => p.fields(),
            ServerboundPacketView::UseEntity(p) => p.fields(),
            ServerboundPacketView::CraftingBookData(p) => p.fields(),
            ServerboundPacketView::AdvancementTab(p) => p.fields(),
        }
    }

    /// The bytes that this packet is written as, or why it cannot be written.
    /// Where there are bytes, they start with the id of the packet's kind.
    pub open spec fn encoding(self) -> Result<Seq<u8>, Error> {
        match self {
            ServerboundPacketView::Handshake(p) => p.encoding(),
            ServerboundPacketView::StatusRequest => StatusRequest::encoding(),
            ServerboundPacketView::EncryptionResponse(p) => p.encoding(),
            ServerboundPacketView::TabComplete(p) => p.encoding(),
            ServerboundPacketView::UseEntity(p) => p.encoding(),
            ServerboundPacketView::CraftingBookData(p) => p.encoding(),
            ServerboundPacketView::AdvancementTab(p) => p.encoding(),
        }
    }

    /// Reads the fields of a packet of the given kind.
    pub open spec fn parse_fields(kind: PacketKind, s: Seq<u8>) -> Result<
        (ServerboundPacketView, Seq<u8>),
        Error,
    > {
        match kind {
            PacketKind::Handshake => match HandshakeView::parse(s) {
                Ok((p, rest)) => Ok((ServerboundPacketView::Handshake(p), rest)),
                Err(e) => Err(e),
            },
            PacketKind::StatusRequest => Ok((ServerboundPacketView::StatusRequest, s)),
            PacketKind::EncryptionResponse => match EncryptionResponseView::parse(s) {
                Ok((p, rest)) => Ok((ServerboundPacketView::EncryptionResponse(p), rest)),
                Err(e) => Err(e),
            },
            PacketKind::TabComplete => match TabCompleteView::parse(s) {
                Ok((p, rest)) => Ok((ServerboundPacketView::TabComplete(p), rest)),
                Err(e) => Err(e),
            },
            PacketKind::UseEntity => match UseEntity::parse(s) {
                Ok((p, rest)) => Ok((ServerboundPacketView::UseEntity(p), rest)),
                Err(e) => Err(e),
            },
            PacketKind::CraftingBookData => match CraftingBookData::parse(s) {
                Ok((p, rest)) => Ok((ServerboundPacketView::CraftingBookData(p), rest)),
                Err(e) => Err(e),
            },
            PacketKind::AdvancementTab => match AdvancementTabView::parse(s) {
                Ok((p, rest)) => Ok((ServerboundPacketView::AdvancementTab(p), rest)),
                Err(e) => Err(e),
            },
        }
    }

    /// Reads a packet that arrives in `state`: its id, which must name a kind
    /// in that state, and then the fields of that kind.
    pub open spec fn parse(s: Seq<u8>, state: ClientState) -> Result<
        (ServerboundPacketView, Seq<u8>),
        Error,
    > {
        match parse_varint(s) {
            Ok((id, rest)) => match registered(state, id) {
                Some(kind) => Self::parse_fields(kind, rest),
                None => Err(Error::UnknownPacket { state, id }),
            },
            Err(e) => Err(e),
        }
    }
}

impl ServerboundPacket {
    /// The kind of this packet.
    pub fn kind(&self) -> (kind: PacketKind)
        ensures
            kind == self@.kind(),
    {
        match self {
            ServerboundPacket::Handshake(_) => PacketKind::Handshake,
            ServerboundPacket::StatusRequest(_) => PacketKind::StatusRequest,
            ServerboundPacket::EncryptionResponse(_) => PacketKind::EncryptionResponse,
            ServerboundPacket::TabComplete(_) => PacketKind::TabComplete,
            ServerboundPacket::UseEntity(_) => PacketKind::UseEntity,
            ServerboundPacket::CraftingBookData(_) => PacketKind::CraftingBookData,
            ServerboundPacket::AdvancementTab(_) => PacketKind::AdvancementTab,
        }
    }

    /// The bytes of this packet, id first, or the reason why it has none.
    pub fn to_u8(&self) -> (res: Result<Vec<u8>, Error>)
        ensures
            match self@.encoding() {
                Ok(bytes) => res matches Ok(out) && out@ == bytes,
                Err(e) => res matches Err(f) && f == e,
            },
    {
        match self {
            ServerboundPacket::Handshake(p) => p.to_u8(),
            ServerboundPacket::StatusRequest(p) => p.to_u8(),
            ServerboundPacket::EncryptionResponse(p) => p.to_u8(),
            ServerboundPacket::TabComplete(p) => p.to_u8(),
            ServerboundPacket::UseEntity(p) => p.to_u8(),
            ServerboundPacket::CraftingBookData(p) => p.to_u8(),
            ServerboundPacket::AdvancementTab(p) => p.to_u8(),
        }
    }

    /// Reads one packet that arrives in `state` off the front of the input.
    /// On failure nothing is taken from the input. A packet that was read is
    /// consistent, so it can be written again, and its kind belongs to `state`.
    pub fn deserialize(r: &mut Reader, state: &ClientState) -> (res: Result<
        ServerboundPacket,
        Error,
    >)
        ensures
            match ServerboundPacketView::parse(old(r)@, *state) {
                Ok((packet, rest)) => res matches Ok(found) && found@ == packet && final(r)@
                    == rest,
                Err(e) => res matches Err(f) && f == e && final(r)@ == old(r)@,
            },
            res matches Ok(found) ==> found@.consistent() && found@.kind().state() == *state,
    {
        proof {
            lemma_parsed_is_consistent(r@, *state);
        }
        let mut probe = *r;
        let id = match read_varint(&mut probe) {
            Ok(id) => id,
            Err(e) => {
                return Err(e);
            },
        };
        let kind = match resolve(*state, id) {
            Ok(kind) => kind,
            Err(e) => {
                return Err(e);
            },
        };
        let packet = match kind {
            PacketKind::Handshake => Handshake::deserialize(&mut probe),
            PacketKind::StatusRequest => StatusRequest::deserialize(&mut probe),
            PacketKind::EncryptionResponse => EncryptionResponse::deserialize(&mut probe),
            PacketKind::TabComplete => TabComplete::deserialize(&mut probe),
            PacketKind::UseEntity => UseEntity::deserialize(&mut probe),
            PacketKind::CraftingBookData => CraftingBookData::deserialize(&mut probe),
            PacketKind::AdvancementTab => AdvancementTab::deserialize(&mut probe),
        };
        match packet {
            Ok(packet) => {
                *r = probe;
                Ok(packet)
            },
            Err(e) => Err(e),
        }
    }
}

impl UseEntity {
    /// The packet holds exactly the fields that its action code calls for.
    pub open spec fn consistent(self) -> bool {
        &&& self.location is Some <==> Self::has_location(self.action)
        &&& self.hand is Some <==> Self::has_hand(self.action)
    }
}

impl CraftingBookData {
    /// The packet holds the displayed recipe or the status of the book, and
    /// not both.
    pub open spec fn consistent(self) -> bool {
        self.displayed_recipe is Some <==> self.crafting_book_status is None
    }
}

impl ServerboundPacketView {
    /// The packet says on the wire all that it holds: every field of it is
    /// one that its layout has a place for, and every string and byte array
    /// is short enough for a length prefix. These are the packets that come
    /// back from the wire as they went.
    pub open spec fn consistent(self) -> bool {
        match self {
            ServerboundPacketView::Handshake(p) => p.rejection() is None,
            ServerboundPacketView::StatusRequest => true,
            ServerboundPacketView::EncryptionResponse(p) => p.rejection() is None,
            ServerboundPacketView::TabComplete(p) => p.rejection() is None,
            ServerboundPacketView::UseEntity(p) => p.consistent(),
            ServerboundPacketView::CraftingBookData(p) => p.consistent(),
            ServerboundPacketView::AdvancementTab(p) => p.rejection() is None,
        }
    }
}

} // verus!
