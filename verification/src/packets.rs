//! The packets a client sends, as plain values.
//!
//! A packet that holds a `String` or a `Vec` has a view that holds the
//! characters or the bytes; the specifications of the wire layout speak of the
//! views.

use crate::state::ClientState;
use vstd::prelude::*;

verus! {

/// Opens a connection and says which state the client wants next.
#[derive(Clone, Debug, PartialEq, Eq)]
pub struct Handshake {
    pub protocol_version: i32,
    pub server_address: String,
    pub server_port: u16,
    pub next_state: i32,
}

pub struct HandshakeView {
    pub protocol_version: i32,
    pub server_address: Seq<char>,
    pub server_port: u16,
    pub next_state: i32,
}

impl View for Handshake {
    type V = HandshakeView;

    open spec fn view(&self) -> HandshakeView {
        HandshakeView {
            protocol_version: self.protocol_version,
            server_address: self.server_address@,
            server_port: self.server_port,
            next_state: self.next_state,
        }
    }
}

impl Handshake {
    /// The state that this handshake asks for, if it asks for one that exists.
    pub fn get_next_clientstate(&self) -> (next: Option<ClientState>)
        ensures
            next == ClientState::requested_by(self.next_state),
    {
        match self.next_state {
            1 => Some(ClientState::Status),
            2 => Some(ClientState::Login),
            _ => None,
        }
    }
}

/// Asks the server for its status. It has no fields.
#[derive(Clone, Copy, Debug, PartialEq, Eq)]
pub struct StatusRequest {}

/// The client's answer to an encryption request: the shared secret and the
/// verify token, each encrypted under the server's public RSA key.
#[derive(Clone, Debug, PartialEq, Eq)]
pub struct EncryptionResponse {
    pub shared_secret: Vec<u8>,
    pub verify_token: Vec<u8>,
}

pub struct EncryptionResponseView {
    pub shared_secret: Seq<u8>,
    pub verify_token: Seq<u8>,
}

impl View for EncryptionResponse {
    type V = EncryptionResponseView;

    open spec fn view(&self) -> EncryptionResponseView {
        EncryptionResponseView {
            shared_secret: self.shared_secret@,
            verify_token: self.verify_token@,
        }
    }
}

impl EncryptionResponse {
    /// The packet that carries these two ciphertexts.
    pub fn new(shared_secret: Vec<u8>, verify_token: Vec<u8>) -> (packet: ServerboundPacket)
        ensures
            packet@ == ServerboundPacketView::EncryptionResponse(
                EncryptionResponseView {
                    shared_secret: shared_secret@,
                    verify_token: verify_token@,
                },
            ),
    {
        ServerboundPacket::EncryptionResponse(EncryptionResponse { shared_secret, verify_token })
    }
}

/// Asks for completions of a partly typed chat line. The block the player
/// looks at, as a packed position, is there only when there is such a block.
#[derive(Clone, Debug, PartialEq, Eq)]
pub struct TabComplete {
    pub text: String,
    pub assume_command: bool,
    pub looked_at_block: Option<u64>,
}

pub struct TabCompleteView {
    pub text: Seq<char>,
    pub assume_command: bool,
    pub looked_at_block: Option<u64>,
}

impl View for TabComplete {
    type V = TabCompleteView;

    open spec fn view(&self) -> TabCompleteView {
        TabCompleteView {
            text: self.text@,
            assume_command: self.assume_command,
            looked_at_block: self.looked_at_block,
        }
    }
}

/// The player attacks or uses an entity. The action code says which fields
/// travel: 0 (interact) has a hand, 1 (attack) has neither, 2 (interact at) has
/// a location and a hand. The location is three 32-bit floats, each held as
/// its bit pattern.
#[derive(Clone, Copy, Debug, PartialEq, Eq)]
pub struct UseEntity {
    pub target: i32,
    pub action: i32,
    pub location: Option<(u32, u32, u32)>,
    pub hand: Option<i32>,
}

impl View for UseEntity {
    type V = UseEntity;

    open spec fn view(&self) -> UseEntity {
        *self
    }
}

impl UseEntity {
    /// Whether packets with this action code carry a location.
    pub open spec fn has_location(action: i32) -> bool {
        action == 2
    }

    /// Whether packets with this action code carry a hand.
    pub open spec fn has_hand(action: i32) -> bool {
        action == 0 || action == 2
    }
}

/// Either the recipe that the crafting book shows, or whether the book is
/// open and whether its filter is on.
#[derive(Clone, Copy, Debug, PartialEq, Eq)]
pub struct CraftingBookData {
    pub displayed_recipe: Option<i32>,
    pub crafting_book_status: Option<(bool, bool)>,
}

impl View for CraftingBookData {
    type V = CraftingBookData;

    open spec fn view(&self) -> CraftingBookData {
        *self
    }
}

/// The player opened the advancement tab with this identifier, or closed the
/// advancement screen.
#[derive(Clone, Debug, PartialEq, Eq)]
pub struct AdvancementTab {
    pub tab_id: Option<String>,
}

pub struct AdvancementTabView {
    pub tab_id: Option<Seq<char>>,
}

impl View for AdvancementTab {
    type V = AdvancementTabView;

    open spec fn view(&self) -> AdvancementTabView {
        AdvancementTabView {
            tab_id: match self.tab_id {
                Some(id) => Some(id@),
                None => None,
            },
        }
    }
}

/// Any packet a client sends.
#[derive(Clone, Debug, PartialEq, Eq)]
pub enum ServerboundPacket {
    Handshake(Handshake),
    StatusRequest(StatusRequest),
    EncryptionResponse(EncryptionResponse),
    TabComplete(TabComplete),
    UseEntity(UseEntity),
    CraftingBookData(CraftingBookData),
    AdvancementTab(AdvancementTab),
}

pub enum ServerboundPacketView {
    Handshake(HandshakeView),
    StatusRequest,
    EncryptionResponse(EncryptionResponseView),
    TabComplete(TabCompleteView),
    UseEntity(UseEntity),
    CraftingBookData(CraftingBookData),
    AdvancementTab(AdvancementTabView),
}

impl View for ServerboundPacket {
    type V = ServerboundPacketView;

    open spec fn view(&self) -> ServerboundPacketView {
        match self {
            ServerboundPacket::Handshake(p) => ServerboundPacketView::Handshake(p@),
            ServerboundPacket::StatusRequest(_) => ServerboundPacketView::StatusRequest,
            ServerboundPacket::EncryptionResponse(p) => ServerboundPacketView::EncryptionResponse(
                p@,
            ),
            ServerboundPacket::TabComplete(p) => ServerboundPacketView::TabComplete(p@),
            ServerboundPacket::UseEntity(p) => ServerboundPacketView::UseEntity(*p),
            ServerboundPacket::CraftingBookData(p) => ServerboundPacketView::CraftingBookData(*p),
            ServerboundPacket::AdvancementTab(p) => ServerboundPacketView::AdvancementTab(p@),
        }
    }
}

} // verus!
