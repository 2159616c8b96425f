//! The typed encode/decode contract that every wire-representable value
//! type implements.
//!
//! A type's wire behaviour is pinned down by four spec functions: `wire`
//! gives the exact bytes a value encodes to, and the `dec_*` family gives
//! the full decode trichotomy over an arbitrary byte sequence — whether a
//! value is found, how many bytes it occupies and which abstract value it
//! denotes, or why it cannot (yet) be read. Every implementation owes the
//! round-trip theorem: decoding what `wire` produced finds the original
//! value and consumes exactly its bytes, whatever follows them.
use vstd::prelude::*;

use crate::DecodeError;
use crate::buffer::ReadBuffer;
use crate::buffer::WriteBuffer;
use crate::varint::VarInt;
use crate::varint::lemma_varint_round_trip;
use crate::varint::lemma_varint_trichotomy;
use crate::varint::lemma_varint_encode_len;
use crate::varint::varint_complete;
use crate::varint::varint_incomplete;
use crate::varint::varint_encode;
use crate::varint::varint_value;
use crate::varint::varint_wire_len;

verus! {

/// Outcome of decoding a value from the front of a byte sequence.
#[derive(Clone, Copy, Debug, PartialEq, Eq, Structural)]
pub enum DecodeStatus {
    /// A complete value starts at the first byte.
    Found,
    /// More bytes could still complete the value.
    Incomplete,
    /// The bytes present violate the format; no extension can help.
    Malformed,
}

/// The generic encode/decode contract of a wire-representable type.
pub trait Codec: Sized {
    /// The mathematical value a `Self` stands for on the wire.
    type Model;

    /// The abstract value of `self`.
    spec fn model(&self) -> Self::Model;

    /// Well-formedness that encoding requires and decoding guarantees.
    spec fn valid(&self) -> bool;

    /// The exact bytes `self` encodes to.
    spec fn wire(&self) -> Seq<u8>;

    /// The declared maximum used to bound reads of this type.
    spec fn spec_max_size() -> int;

    /// Whether a value of this type can be read from the front of `bytes`.
    spec fn dec_status(bytes: Seq<u8>) -> DecodeStatus;

    /// The abstract value read from the front of `bytes`, when found.
    spec fn dec_model(bytes: Seq<u8>) -> Self::Model;

    /// How many leading bytes the value found in `bytes` occupies.
    spec fn dec_len(bytes: Seq<u8>) -> int;

    /// Round trip: a buffer that starts with `self.wire()` decodes to the
    /// value of `self`, consuming exactly the encoded bytes, whatever
    /// bytes follow them.
    proof fn lemma_round_trip(&self, rest: Seq<u8>)
        requires
            self.valid(),
        ensures
            Self::dec_status(self.wire() + rest) == DecodeStatus::Found,
            Self::dec_model(self.wire() + rest) == self.model(),
            Self::dec_len(self.wire() + rest) == self.wire().len(),
    ;

    /// The declared per-type maximum, as handed to bounded reads.
    fn max_size() -> (n: usize)
        ensures
            n == Self::spec_max_size(),
            n >= 1,
    ;

    /// The number of bytes `encode` will append, without encoding.
    fn written_size(&self) -> (n: usize)
        requires
            self.valid(),
        ensures
            n == self.wire().len(),
    ;

    /// Append exactly `self.wire()` to `out`.
    fn encode(&self, out: &mut WriteBuffer)
        requires
            self.valid(),
        ensures
            final(out).bytes() == old(out).bytes() + self.wire(),
    ;

    /// Read one value from the front of the unconsumed bytes. On success
    /// the cursor advances past exactly the value's bytes; on failure it
    /// does not move, and the error names the decode status of the bytes.
    fn decode(buf: &mut ReadBuffer) -> (r: Result<Self, DecodeError>)
        requires
            old(buf).wf(),
        ensures
            final(buf).wf(),
            final(buf).bytes() == old(buf).bytes(),
            match r {
                Ok(v) => Self::dec_status(old(buf).remaining()) == DecodeStatus::Found && v.valid()
                    && v.model() == Self::dec_model(old(buf).remaining()) && final(buf).position()
                    == old(buf).position() + Self::dec_len(old(buf).remaining()),
                Err(DecodeError::Incomplete) => Self::dec_status(old(buf).remaining())
                    == DecodeStatus::Incomplete && final(buf).position() == old(buf).position(),
                Err(DecodeError::Malformed) => Self::dec_status(old(buf).remaining())
                    == DecodeStatus::Malformed && final(buf).position() == old(buf).position(),
            },
    ;
}

impl Codec for VarInt {
    type Model = u32;

    open spec fn model(&self) -> u32 {
        self.uval()
    }

    open spec fn valid(&self) -> bool {
        true
    }

    open spec fn wire(&self) -> Seq<u8> {
        varint_encode(self.uval())
    }

    open spec fn spec_max_size() -> int {
        5
    }

    open spec fn dec_status(bytes: Seq<u8>) -> DecodeStatus {
        if varint_complete(bytes) {
            DecodeStatus::Found
        } else if varint_incomplete(bytes) {
            DecodeStatus::Incomplete
        } else {
            DecodeStatus::Malformed
        }
    }

    open spec fn dec_model(bytes: Seq<u8>) -> u32 {
        varint_value(bytes) as u32
    }

    open spec fn dec_len(bytes: Seq<u8>) -> int {
        varint_wire_len(bytes)
    }

    proof fn lemma_round_trip(&self, rest: Seq<u8>) {
        lemma_varint_round_trip(self.uval(), rest);
    }

    fn max_size() -> (n: usize) {
        5
    }

    fn written_size(&self) -> (n: usize) {
        let v: u32 = self.0 as u32;
        proof {
            lemma_varint_encode_len(v);
        }
        if v < 128 {
            1
        } else if v < 16384 {
            2
        } else if v < 2097152 {
            3
        } else if v < 268435456 {
            4
        } else {
            5
        }
    }

    fn encode(&self, out: &mut WriteBuffer) {
        out.put_var_int(*self);
    }

    fn decode(buf: &mut ReadBuffer) -> (r: Result<VarInt, DecodeError>) {
        proof {
            lemma_varint_trichotomy(buf.remaining());
        }
        buf.try_get_var_int()
    }
}

} // verus!
