//! Which packet a numeric id stands for. An id is scoped to a connection
//! state: the same number names different packets in different states.

use crate::error::Error;
use crate::state::ClientState;
use vstd::prelude::*;

verus! {

/// The kinds of packet this crate knows.
#[derive(Clone, Copy, Debug, PartialEq, Eq, Structural, Hash)]
pub enum PacketKind {
    Handshake,
    StatusRequest,
    EncryptionResponse,
    TabComplete,
    UseEntity,
    CraftingBookData,
    AdvancementTab,
}

impl PacketKind {
    /// The id that a packet of this kind starts with on the wire.
    pub open spec fn id(self) -> i32 {
        match self {
            PacketKind::Handshake => 0x00,
            PacketKind::StatusRequest => 0x00,
            PacketKind::EncryptionResponse => 0x01,
            PacketKind::TabComplete => 0x01,
            PacketKind::UseEntity => 0x0a,
            PacketKind::CraftingBookData => 0x17,
            PacketKind::AdvancementTab => 0x19,
        }
    }

    /// The one connection state in which a packet of this kind is sent.
    pub open spec fn state(self) -> ClientState {
        match self {
            PacketKind::Handshake => ClientState::Handshake,
            PacketKind::StatusRequest => ClientState::Status,
            PacketKind::EncryptionResponse => ClientState::Login,
            PacketKind::TabComplete => ClientState::Play,
            PacketKind::UseEntity => ClientState::Play,
            PacketKind::CraftingBookData => ClientState::Play,
            PacketKind::AdvancementTab => ClientState::Play,
        }
    }
}

/// The kind that is sent in `state` under `id`, if there is one.
pub open spec fn registered(state: ClientState, id: i32) -> Option<PacketKind> {
    if exists|kind: PacketKind| kind.state() == state && kind.id() == id {
        Some(choose|kind: PacketKind| kind.state() == state && kind.id() == id)
    } else {
        None
    }
}

/// No two kinds share a state and an id, so a state and an id name at most
/// one kind, and each kind is found under its own state and id.
pub proof fn lemma_registered_exact(state: ClientState, id: i32, kind: PacketKind)
    ensures
        registered(state, id) == Some(kind) <==> kind.state() == state && kind.id() == id,
{
    if kind.state() == state && kind.id() == id {
        let found = choose|k: PacketKind| k.state() == state && k.id() == id;
        assert(found == kind);
    }
}

/// No id is negative.
pub proof fn lemma_id_not_negative(kind: PacketKind)
    ensures
        kind.id() >= 0,
{
}

/// The id of a kind.
pub fn id_of(kind: PacketKind) -> (id: i32)
    ensures
        id == kind.id(),
{
    match kind {
        PacketKind::Handshake => 0x00,
        PacketKind::StatusRequest => 0x00,
        PacketKind::EncryptionResponse => 0x01,
        PacketKind::TabComplete => 0x01,
        PacketKind::UseEntity => 0x0a,
        PacketKind::CraftingBookData => 0x17,
        PacketKind::AdvancementTab => 0x19,
    }
}

/// The connection state of a kind.
pub fn state_of(kind: PacketKind) -> (state: ClientState)
    ensures
        state == kind.state(),
{
    match kind {
        PacketKind::Handshake => ClientState::Handshake,
        PacketKind::StatusRequest => ClientState::Status,
        PacketKind::EncryptionResponse => ClientState::Login,
        PacketKind::TabComplete
        | PacketKind::UseEntity
        | PacketKind::CraftingBookData
        | PacketKind::AdvancementTab => ClientState::Play,
    }
}

/// Finds the kind of the packet that arrived in `state` with `id`.
pub fn resolve(state: ClientState, id: i32) -> (res: Result<PacketKind, Error>)
    ensures
        match registered(state, id) {
            Some(kind) => res matches Ok(found) && found == kind,
            None => res matches Err(Error::UnknownPacket { state: s, id: i }) && s == state && i
                == id,
        },
{
    let found = match state {
        ClientState::Handshake => match id {
            0x00 => Some(PacketKind::Handshake),
            _ => None,
        },
        ClientState::Status => match id {
            0x00 => Some(PacketKind::StatusRequest),
            _ => None,
        },
        ClientState::Login => match id {
            0x01 => Some(PacketKind::EncryptionResponse),
            _ => None,
        },
        ClientState::Play => match id {
            0x01 => Some(PacketKind::TabComplete),
            0x0a => Some(PacketKind::UseEntity),
            0x17 => Some(PacketKind::CraftingBookData),
            0x19 => Some(PacketKind::AdvancementTab),
            _ => None,
        },
    };
    proof {
        match found {
            Some(kind) => {
                lemma_registered_exact(state, id, kind);
            },
            None => {
                assert forall|kind: PacketKind| !(kind.state() == state && kind.id() == id) by {}
            },
        }
    }
    match found {
        Some(kind) => Ok(kind),
        None => Err(Error::UnknownPacket { state, id }),
    }
}

} // verus!
