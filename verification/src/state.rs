//! The stage a connection is in. A packet id means something only together
//! with the state it is received in.

use vstd::prelude::*;

verus! {

/// The four stages of a connection.
#[derive(Clone, Copy, Debug, PartialEq, Eq, Structural, Hash)]
pub enum ClientState {
    Handshake,
    Status,
    Login,
    Play,
}

impl ClientState {
    /// The state a client asks for with the `next_state` field of its handshake:
    /// 1 is a status query, 2 is a login, and nothing else is a request at all.
    pub open spec fn requested_by(next_state: i32) -> Option<ClientState> {
        if next_state == 1 {
            Some(ClientState::Status)
        } else if next_state == 2 {
            Some(ClientState::Login)
        } else {
            None
        }
    }
}

} // verus!
