//! Core of a binary wire protocol for a multiplayer game server: bounded
//! byte buffers, the variable-length integer encoding, a typed encode/decode
//! contract, the namespaced identifier value type, per-opcode packet decoding
//! with discriminant-dependent layouts, and a registry that dispatches a raw
//! payload to the decoder registered for its connection phase and opcode.
use vstd::prelude::*;

pub mod buffer;
pub mod codec;
pub mod identifier;
pub mod packet;
pub mod registry;
pub mod sign;
pub mod varint;

verus! {

/// Why a decode failed.
///
/// `Incomplete` means the buffer does not yet hold enough bytes for the value
/// being read; the read consumed nothing and may be retried once more bytes
/// arrive. `Malformed` means the bytes that are present violate the wire
/// format; retrying can never succeed.
#[derive(Clone, Copy, Debug, PartialEq, Eq, Structural)]
pub enum DecodeError {
    Incomplete,
    Malformed,
}

/// Why an encode failed: the value's encoded form would exceed the declared
/// maximum for the field being written. Outbound values can carry
/// user-supplied content, so this is reported, never a panic.
#[derive(Clone, Copy, Debug, PartialEq, Eq, Structural)]
pub enum EncodeError {
    TooLong,
}

} // verus!
