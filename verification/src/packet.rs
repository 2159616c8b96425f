//! The packet abstraction: inbound message types bound to an opcode and a
//! connection phase, and the discriminant-dependent field layout pattern.
//!
//! An inbound message decodes from the bytes that follow its opcode; which
//! trailing fields are present may depend only on a discriminant read
//! earlier in the same message, and an unknown discriminant fails closed
//! as `Malformed`. The entity-interaction message is the worked instance
//! of that pattern.
use vstd::prelude::*;

use crate::DecodeError;
use crate::buffer::ReadBuffer;
use crate::buffer::be32_at;
use crate::codec::DecodeStatus;
use crate::varint::VarInt;
use crate::varint::varint_complete;
use crate::varint::varint_incomplete;
use crate::varint::varint_value;
use crate::varint::varint_wire_len;

verus! {

/// A stage of a connection's lifecycle; each phase has its own set of
/// valid opcodes. The set itself is injected configuration.
#[derive(Clone, Copy, Debug, PartialEq, Eq, Hash, Structural)]
pub enum Phase {
    Handshake,
    Status,
    Login,
    Configuration,
    Play,
}

/// Opcode of the serverbound entity-interaction message within the play
/// phase. The numeric value is injected protocol configuration
/// (ordinarily a generated table), not core logic.
pub const PLAY_INTERACT: i32 = 22;

/// An inbound message type: decodable from the payload bytes that follow
/// its opcode, and statically bound to one opcode and one phase.
///
/// The decode contract is the same shape as the typed codec contract:
/// the `dec_*` spec functions fix the decode trichotomy of the type, and
/// `read` follows it exactly, moving the cursor only on success.
pub trait ServerPacket: Sized {
    /// The mathematical value the message carries.
    type Model;

    spec fn model(&self) -> Self::Model;

    /// Structural consistency that every decoded message satisfies.
    spec fn valid(&self) -> bool;

    spec fn dec_status(bytes: Seq<u8>) -> DecodeStatus;

    spec fn dec_model(bytes: Seq<u8>) -> Self::Model;

    spec fn dec_len(bytes: Seq<u8>) -> int;

    spec fn spec_opcode() -> int;

    spec fn spec_phase() -> Phase;

    fn opcode() -> (n: i32)
        ensures
            n == Self::spec_opcode(),
    ;

    fn phase() -> (p: Phase)
        ensures
            p == Self::spec_phase(),
    ;

    /// Decode one message from the unconsumed bytes. Presence and order
    /// of every field is a function of those bytes alone; on failure the
    /// cursor does not move, and the error names the status of the bytes.
    fn read(buf: &mut ReadBuffer) -> (r: Result<Self, DecodeError>)
        requires
            old(buf).wf(),
        ensures
            final(buf).wf(),
            final(buf).bytes() == old(buf).bytes(),
            match r {
                Ok(v) => Self::dec_status(old(buf).remaining()) == DecodeStatus::Found && v.valid()
                    && v.model() == Self::dec_model(old(buf).remaining()) && final(buf).position()
                    == old(buf).position() + Self::dec_len(old(buf).remaining()),
                Err(DecodeError::Incomplete) => Self::dec_status(old(buf).remaining())
                    == DecodeStatus::Incomplete && final(buf).position() == old(buf).position(),
                Err(DecodeError::Malformed) => Self::dec_status(old(buf).remaining())
                    == DecodeStatus::Malformed && final(buf).position() == old(buf).position(),
            },
    ;
}

/// The closed set of interaction kinds a client may send; the message's
/// leading discriminant selects one.
#[derive(PartialEq, Eq, Debug, Structural)]
pub enum ActionType {
    Interact,
    Attack,
    InteractAt,
}

/// Witness that a discriminant value maps to no interaction kind.
#[derive(Debug)]
pub struct InvalidActionType;

impl ActionType {
    /// Map a discriminant value to its interaction kind; every value
    /// outside the closed set is rejected.
    pub fn try_from(value: i32) -> (r: Result<ActionType, InvalidActionType>)
        ensures
            value == 0 <==> r == Ok::<ActionType, InvalidActionType>(ActionType::Interact),
            value == 1 <==> r == Ok::<ActionType, InvalidActionType>(ActionType::Attack),
            value == 2 <==> r == Ok::<ActionType, InvalidActionType>(ActionType::InteractAt),
            !(0 <= value <= 2) <==> r is Err,
    {
        match value {
            0 => Ok(ActionType::Interact),
            1 => Ok(ActionType::Attack),
            2 => Ok(ActionType::InteractAt),
            _ => Err(InvalidActionType),
        }
    }
}

/// Three 32-bit floating-point components carried as their raw wire bit
/// patterns; interpreting them numerically is the consumer's concern.
#[derive(Clone, Copy, Debug, PartialEq, Eq, Structural)]
pub struct Vec3Data {
    pub x_bits: u32,
    pub y_bits: u32,
    pub z_bits: u32,
}

/// The serverbound entity-interaction message. After the entity id comes
/// a discriminant; a target position is present exactly for `InteractAt`,
/// a hand exactly for `Interact` and `InteractAt`, and a sneaking flag
/// always ends the message.
#[derive(Debug, PartialEq)]
pub struct SInteract {
    pub entity_id: VarInt,
    pub action: VarInt,
    pub target_position: Option<Vec3Data>,
    pub hand: Option<VarInt>,
    pub sneaking: bool,
}

/// The mathematical content of an interaction message.
pub ghost struct SInteractModel {
    pub entity_id: u32,
    pub action: u32,
    pub target_position: Option<(u32, u32, u32)>,
    pub hand: Option<u32>,
    pub sneaking: bool,
}

/// The bytes after the entity id field.
pub open spec fn si_s1(s: Seq<u8>) -> Seq<u8> {
    s.skip(varint_wire_len(s))
}

/// The bytes after the discriminant field.
pub open spec fn si_s2(s: Seq<u8>) -> Seq<u8> {
    si_s1(s).skip(varint_wire_len(si_s1(s)))
}

/// The decoded discriminant.
pub open spec fn si_action(s: Seq<u8>) -> int {
    varint_value(si_s1(s))
}

/// The bytes after the optional target position.
pub open spec fn si_s3(s: Seq<u8>) -> Seq<u8> {
    if si_action(s) == 2 {
        si_s2(s).skip(12)
    } else {
        si_s2(s)
    }
}

/// The bytes after the optional hand field.
pub open spec fn si_s4(s: Seq<u8>) -> Seq<u8> {
    if si_action(s) == 0 || si_action(s) == 2 {
        si_s3(s).skip(varint_wire_len(si_s3(s)))
    } else {
        si_s3(s)
    }
}

/// Decode trichotomy of the interaction message over raw bytes. Field
/// presence follows the discriminant alone; a discriminant outside the
/// closed set is `Malformed` however many bytes follow.
pub open spec fn si_dec_status(s: Seq<u8>) -> DecodeStatus {
    if !varint_complete(s) {
        if varint_incomplete(s) {
            DecodeStatus::Incomplete
        } else {
            DecodeStatus::Malformed
        }
    } else if !varint_complete(si_s1(s)) {
        if varint_incomplete(si_s1(s)) {
            DecodeStatus::Incomplete
        } else {
            DecodeStatus::Malformed
        }
    } else if si_action(s) > 2 {
        DecodeStatus::Malformed
    } else if si_action(s) == 2 && si_s2(s).len() < 12 {
        DecodeStatus::Incomplete
    } else if (si_action(s) == 0 || si_action(s) == 2) && !varint_complete(si_s3(s)) {
        if varint_incomplete(si_s3(s)) {
            DecodeStatus::Incomplete
        } else {
            DecodeStatus::Malformed
        }
    } else if si_s4(s).len() < 1 {
        DecodeStatus::Incomplete
    } else {
        DecodeStatus::Found
    }
}

/// The value found at the front of `s`, when the status is `Found`.
pub open spec fn si_dec_model(s: Seq<u8>) -> SInteractModel {
    SInteractModel {
        entity_id: varint_value(s) as u32,
        action: si_action(s) as u32,
        target_position: if si_action(s) == 2 {
            Some(
                (
                    be32_at(si_s2(s), 0) as u32,
                    be32_at(si_s2(s), 4) as u32,
                    be32_at(si_s2(s), 8) as u32,
                ),
            )
        } else {
            None
        },
        hand: if si_action(s) == 0 || si_action(s) == 2 {
            Some(varint_value(si_s3(s)) as u32)
        } else {
            None
        },
        sneaking: si_s4(s)[0] != 0,
    }
}

/// How many leading bytes of `s` the message occupies, when found.
pub open spec fn si_dec_len(s: Seq<u8>) -> int {
    varint_wire_len(s) + varint_wire_len(si_s1(s)) + (if si_action(s) == 2 {
        12int
    } else {
        0int
    }) + (if si_action(s) == 0 || si_action(s) == 2 {
        varint_wire_len(si_s3(s))
    } else {
        0int
    }) + 1
}

impl ServerPacket for SInteract {
    type Model = SInteractModel;

    open spec fn model(&self) -> SInteractModel {
        SInteractModel {
            entity_id: self.entity_id.uval(),
            action: self.action.uval(),
            target_position: match self.target_position {
                Some(v) => Some((v.x_bits, v.y_bits, v.z_bits)),
                None => None,
            },
            hand: match self.hand {
                Some(h) => Some(h.uval()),
                None => None,
            },
            sneaking: self.sneaking,
        }
    }

    open spec fn valid(&self) -> bool {
        self.action.uval() <= 2 && (self.target_position is Some <==> self.action.uval() == 2) && (
        self.hand is Some <==> (self.action.uval() == 0 || self.action.uval() == 2))
    }

    open spec fn dec_status(bytes: Seq<u8>) -> DecodeStatus {
        si_dec_status(bytes)
    }

    open spec fn dec_model(bytes: Seq<u8>) -> SInteractModel {
        si_dec_model(bytes)
    }

    open spec fn dec_len(bytes: Seq<u8>) -> int {
        si_dec_len(bytes)
    }

    open spec fn spec_opcode() -> int {
        PLAY_INTERACT as int
    }

    open spec fn spec_phase() -> Phase {
        Phase::Play
    }

    fn opcode() -> (n: i32) {
        PLAY_INTERACT
    }

    fn phase() -> (p: Phase) {
        Phase::Play
    }

    #[verifier::rlimit(100)]
    fn read(buf: &mut ReadBuffer) -> (r: Result<SInteract, DecodeError>) {
        let ghost rem = buf.remaining();
        let saved = buf.cursor();
        let entity_id = match buf.try_get_var_int() {
            Ok(v) => v,
            Err(e) => {
                return Err(e);
            },
        };
        proof {
            crate::varint::lemma_varint_lead_bounds(rem);
            assert(buf.remaining() =~= si_s1(rem));
        }
        let action = match buf.try_get_var_int() {
            Ok(v) => v,
            Err(e) => {
                buf.set_cursor(saved);
                return Err(e);
            },
        };
        proof {
            crate::varint::lemma_varint_lead_bounds(rem);
            crate::varint::lemma_varint_lead_bounds(si_s1(rem));
            assert(buf.remaining() =~= si_s2(rem));
            assert(action.uval() == si_action(rem));
        }
        let a = action.0;
        proof {
            assert((a == 0 <==> a as u32 == 0) && (a == 1 <==> a as u32 == 1) && (a == 2 <==> a
                as u32 == 2) && (!(a == 0 || a == 1 || a == 2) ==> a as u32 > 2)) by (bit_vector);
        }
        let kind = match ActionType::try_from(a) {
            Ok(k) => k,
            Err(_) => {
                buf.set_cursor(saved);
                return Err(DecodeError::Malformed);
            },
        };
        let has_position = kind == ActionType::InteractAt;
        let has_hand = kind == ActionType::Interact || kind == ActionType::InteractAt;
        let target_position = if has_position {
            let x = match buf.try_get_u32_be() {
                Ok(v) => v,
                Err(e) => {
                    buf.set_cursor(saved);
                    return Err(e);
                },
            };
            let y = match buf.try_get_u32_be() {
                Ok(v) => v,
                Err(e) => {
                    buf.set_cursor(saved);
                    return Err(e);
                },
            };
            let z = match buf.try_get_u32_be() {
                Ok(v) => v,
                Err(e) => {
                    buf.set_cursor(saved);
                    return Err(e);
                },
            };
            proof {
                let s2 = si_s2(rem);
                crate::varint::lemma_varint_lead_bounds(rem);
                crate::varint::lemma_varint_lead_bounds(si_s1(rem));
                assert(s2.skip(4).skip(4) =~= s2.skip(8));
                assert(be32_at(s2.skip(4), 0) == be32_at(s2, 4));
                assert(be32_at(s2.skip(8), 0) == be32_at(s2, 8));
                assert(buf.remaining() =~= si_s3(rem));
            }
            Some(Vec3Data { x_bits: x, y_bits: y, z_bits: z })
        } else {
            proof {
                assert(buf.remaining() =~= si_s3(rem));
            }
            None
        };
        let hand = if has_hand {
            let h = match buf.try_get_var_int() {
                Ok(v) => v,
                Err(e) => {
                    buf.set_cursor(saved);
                    return Err(e);
                },
            };
            proof {
                crate::varint::lemma_varint_lead_bounds(si_s3(rem));
                assert(buf.remaining() =~= si_s4(rem));
            }
            Some(h)
        } else {
            proof {
                assert(buf.remaining() =~= si_s4(rem));
            }
            None
        };
        let sneaking = match buf.try_get_bool() {
            Ok(b) => b,
            Err(e) => {
                buf.set_cursor(saved);
                return Err(e);
            },
        };
        Ok(SInteract { entity_id, action, target_position, hand, sneaking })
    }
}

} // verus!
