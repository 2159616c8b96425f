//! The packet registry: a static table mapping (direction, phase, opcode)
//! to a decode routine, so the connection layer can turn a raw payload
//! into a typed message without compile-time knowledge of the type.
//!
//! The table is built once and read-only afterwards; opcode uniqueness
//! within a (direction, phase) pair is guaranteed at build time. After a
//! full decode the dispatcher checks that no payload bytes are left over,
//! and reports leftovers as a framing inconsistency of its own rather
//! than discarding them.
use vstd::prelude::*;

use crate::DecodeError;
use crate::buffer::ReadBuffer;
use crate::codec::DecodeStatus;
use crate::packet::PLAY_INTERACT;
use crate::packet::Phase;
use crate::packet::SInteract;
use crate::packet::ServerPacket;
use crate::packet::si_dec_len;
use crate::packet::si_dec_model;
use crate::packet::si_dec_status;

verus! {

/// Who sends the message: the client (serverbound) or the server
/// (clientbound).
#[derive(Clone, Copy, Debug, PartialEq, Eq, Hash, Structural)]
pub enum Direction {
    Serverbound,
    Clientbound,
}

/// A message decoded through the registry, tagged by its concrete type so
/// the caller can pattern-match on it.
#[derive(Debug, PartialEq)]
pub enum DecodedPacket {
    Interact(SInteract),
}

/// Why a dispatch produced no message. An unknown opcode and leftover
/// payload bytes are conditions of their own, distinct from the decode
/// failures; what to do about any of them is the caller's policy.
#[derive(Clone, Copy, Debug, PartialEq, Eq, Structural)]
pub enum DispatchError {
    /// No decode routine is registered for this (direction, phase,
    /// opcode).
    UnknownOpcode,
    /// The message decoded, but unconsumed bytes follow it in the
    /// payload: a framing inconsistency.
    TrailingBytes,
    /// The registered routine failed on the payload.
    Packet(DecodeError),
}

/// One immutable association of a (direction, phase, opcode) key with a
/// decode routine.
#[derive(Clone, Copy, Debug, PartialEq, Eq, Structural)]
pub struct RegistryEntry {
    pub direction: Direction,
    pub phase: Phase,
    pub opcode: i32,
}

/// The static dispatch table. Built once by [`PacketRegistry::new`],
/// never changed afterwards.
pub struct PacketRegistry {
    entries: Vec<RegistryEntry>,
}

impl PacketRegistry {
    /// The table's rows.
    pub closed spec fn table(&self) -> Seq<RegistryEntry> {
        self.entries@
    }

    /// No two rows share a (direction, phase, opcode) key.
    pub open spec fn unique_keys(&self) -> bool {
        forall|i: int, j: int|
            0 <= i < j < self.table().len() ==> !(self.table()[i].direction == self.table()[
                j
            ].direction && self.table()[i].phase == self.table()[j].phase && self.table()[i].opcode
                == self.table()[j].opcode)
    }

    /// Some row holds this (direction, phase, opcode) key.
    pub open spec fn registered(&self, direction: Direction, phase: Phase, opcode: int) -> bool {
        exists|i: int|
            0 <= i < self.table().len() && self.table()[i].direction == direction && self.table()[
                i
            ].phase == phase && self.table()[i].opcode == opcode
    }

    /// Build the table of every registered message type.
    pub fn new() -> (r: PacketRegistry)
        ensures
            r.table() == seq![
                RegistryEntry {
                    direction: Direction::Serverbound,
                    phase: Phase::Play,
                    opcode: PLAY_INTERACT,
                },
            ],
            r.unique_keys(),
    {
        let mut entries: Vec<RegistryEntry> = Vec::new();
        entries.push(
            RegistryEntry {
                direction: Direction::Serverbound,
                phase: Phase::Play,
                opcode: SInteract::opcode(),
            },
        );
        let r = PacketRegistry { entries };
        proof {
            assert(r.table() =~= seq![
                RegistryEntry {
                    direction: Direction::Serverbound,
                    phase: Phase::Play,
                    opcode: PLAY_INTERACT,
                },
            ]);
        }
        r
    }

    /// How many rows the table holds.
    pub fn entry_count(&self) -> (n: usize)
        ensures
            n == self.table().len(),
    {
        self.entries.len()
    }

    /// One row of the table, for callers that audit it.
    pub fn entry_at(&self, i: usize) -> (e: RegistryEntry)
        requires
            i < self.table().len(),
        ensures
            e == self.table()[i as int],
    {
        self.entries[i]
    }

    /// Resolve the key to its decode routine, run it on the payload, and
    /// demand that the message account for every payload byte. A key with
    /// no row is `UnknownOpcode`; a decoded message followed by leftover
    /// bytes is `TrailingBytes`; a failed decode carries its own error.
    pub fn dispatch(&self, direction: Direction, phase: Phase, opcode: i32, payload: Vec<u8>) -> (r:
        Result<DecodedPacket, DispatchError>)
        ensures
            r == Err::<DecodedPacket, DispatchError>(DispatchError::UnknownOpcode)
                <==> !self.registered(direction, phase, opcode as int),
            (self.registered(direction, phase, opcode as int) && direction
                == Direction::Serverbound && phase == Phase::Play && opcode == PLAY_INTERACT)
                ==> match r {
                Ok(p) => p matches DecodedPacket::Interact(v) && si_dec_status(payload@)
                    == DecodeStatus::Found && v.valid() && v.model() == si_dec_model(payload@)
                    && si_dec_len(payload@) == payload@.len(),
                Err(DispatchError::TrailingBytes) => si_dec_status(payload@) == DecodeStatus::Found
                    && si_dec_len(payload@) < payload@.len(),
                Err(DispatchError::Packet(e)) => (e == DecodeError::Incomplete && si_dec_status(
                    payload@,
                ) == DecodeStatus::Incomplete) || (e == DecodeError::Malformed && si_dec_status(
                    payload@,
                ) == DecodeStatus::Malformed),
                Err(DispatchError::UnknownOpcode) => false,
            },
    {
        let n = self.entries.len();
        let mut i: usize = 0;
        let mut found = false;
        while i < n
            invariant
                0 <= i <= n,
                n == self.table().len(),
                found ==> self.registered(direction, phase, opcode as int),
                !found ==> forall|j: int|
                    0 <= j < i ==> !(self.table()[j].direction == direction && self.table()[j].phase
                        == phase && self.table()[j].opcode == opcode),
            decreases n - i,
        {
            let e = self.entries[i];
            if e.direction == direction && e.phase == phase && e.opcode == opcode {
                found = true;
            }
            i = i + 1;
        }
        if !found {
            proof {
                assert(!self.registered(direction, phase, opcode as int));
            }
            return Err(DispatchError::UnknownOpcode);
        }
        let mut buf = ReadBuffer::new(payload);
        proof {
            assert(buf.remaining() =~= payload@);
        }
        match SInteract::read(&mut buf) {
            Ok(v) => {
                let left = buf.remaining_len();
                if left > 0 {
                    Err(DispatchError::TrailingBytes)
                } else {
                    Ok(DecodedPacket::Interact(v))
                }
            },
            Err(e) => Err(DispatchError::Packet(e)),
        }
    }
}

} // verus!
