//! The ways in which decoding, encoding and the login handshake fail.

use crate::state::ClientState;
use openssl::error::ErrorStack;
use vstd::prelude::*;

verus! {

/// What is wrong with a primitive value on the wire.
#[derive(Clone, Copy, Debug, PartialEq, Eq, Structural)]
pub enum Malformed {
    /// A variable-length integer goes on after its fifth byte.
    VarIntTooLong,
    /// A length prefix is negative, or the payload is too long for any prefix.
    InvalidLength,
    /// The bytes of a string are not UTF-8.
    InvalidUtf8,
    /// A boolean byte is neither 0 nor 1.
    InvalidBool(u8),
}

/// Every failure is final for the message at hand: nothing is retried, and no
/// part of a packet or of its bytes is handed out beside the error.
#[derive(Debug)]
pub enum Error {
    /// The input ended before the value was complete.
    IoFailure,
    /// A primitive value was not laid out as the wire format demands.
    MalformedPrimitive(Malformed),
    /// No packet has this id in this connection state.
    UnknownPacket { state: ClientState, id: i32 },
    /// A tag inside a packet selects no known layout.
    InvalidVariant(i32),
    /// A packet lacks a field that its action code calls for.
    MissingField(i32),
    /// A decrypted shared secret is not 16 bytes long.
    InvalidSecretLength,
    /// The RSA backend refused the operation.
    CryptoError(ErrorStack),
}

} // verus!
