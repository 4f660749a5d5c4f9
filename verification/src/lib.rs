//! Client-to-server packets of the Minecraft network protocol (release 1.12.2):
//! their identity within a connection state, their wire layout, and the RSA
//! steps of the login handshake.
//!
//! Every decoder is specified by a parser on byte sequences and every encoder by
//! the byte sequence it must produce; the `laws` module proves that the two agree.

pub mod crypto;
pub mod error;
pub mod laws;
pub mod layout;
pub mod packets;
pub mod registry;
pub mod state;
pub mod wire;
