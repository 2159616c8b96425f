//! The variable-length integer ("VarInt") wire format.
//!
//! A 32-bit value is broken into 7-bit groups, least-significant group first.
//! Every byte except the last carries the continuation flag (high bit set);
//! an encoding is 1 to 5 bytes long. This module holds the mathematical
//! model of the format: the canonical encoding of a value, and the decode
//! trichotomy (found / incomplete / malformed) over an arbitrary byte
//! sequence.
use vstd::prelude::*;

verus! {

/// A 32-bit integer that travels on the wire in the variable-length format.
/// The wire format is defined over the unsigned reinterpretation of the
/// value, see [`VarInt::uval`].
#[derive(Clone, Copy, Debug, PartialEq, Eq, Structural)]
pub struct VarInt(pub i32);

impl VarInt {
    /// The unsigned 32-bit value whose 7-bit groups appear on the wire.
    pub open spec fn uval(self) -> u32 {
        self.0 as u32
    }
}

/// The canonical wire encoding of `v`: 7-bit groups, least significant
/// first, continuation flag on every byte but the last.
pub open spec fn varint_encode(v: u32) -> Seq<u8>
    decreases v,
{
    if v < 128 {
        seq![v as u8]
    } else {
        seq![(v % 128 + 128) as u8] + varint_encode(v / 128)
    }
}

/// Number of leading continuation bytes (high bit set) of `s`.
pub open spec fn varint_lead(s: Seq<u8>) -> int
    decreases s.len(),
{
    if s.len() == 0 || s[0] < 128 {
        0
    } else {
        1 + varint_lead(s.skip(1))
    }
}

/// A terminating byte appears among the first five bytes of `s`: a decode
/// started at `s[0]` finds a complete encoding.
pub open spec fn varint_complete(s: Seq<u8>) -> bool {
    varint_lead(s) < 5 && varint_lead(s) < s.len()
}

/// Every byte of `s` is a continuation byte and fewer than five are present:
/// the encoding may still terminate once more bytes arrive.
pub open spec fn varint_incomplete(s: Seq<u8>) -> bool {
    s.len() < 5 && varint_lead(s) == s.len()
}

/// The first five bytes of `s` all carry the continuation flag: no VarInt
/// terminates within its maximum length, whatever arrives later.
pub open spec fn varint_malformed(s: Seq<u8>) -> bool {
    varint_lead(s) >= 5
}

/// Number of bytes a decode starting at `s[0]` consumes, when complete.
pub open spec fn varint_wire_len(s: Seq<u8>) -> int {
    varint_lead(s) + 1
}

/// The base-128 value accumulated from the leading groups of `s` up to and
/// including the first terminating byte (unbounded integer form).
pub open spec fn varint_value_i(s: Seq<u8>) -> int
    decreases s.len(),
{
    if s.len() == 0 {
        0
    } else if s[0] < 128 {
        s[0] as int
    } else {
        (s[0] - 128) + 128 * varint_value_i(s.skip(1))
    }
}

/// The decoded 32-bit value: the accumulated groups, truncated to 32 bits.
pub open spec fn varint_value(s: Seq<u8>) -> int {
    varint_value_i(s) % 0x1_0000_0000
}

/// The number of leading continuation bytes never exceeds the length.
pub proof fn lemma_varint_lead_bounds(s: Seq<u8>)
    ensures
        0 <= varint_lead(s) <= s.len(),
    decreases s.len(),
{
    if s.len() == 0 || s[0] < 128 {
    } else {
        lemma_varint_lead_bounds(s.skip(1));
    }
}

/// The decode statuses are mutually exclusive and cover every byte sequence.
pub proof fn lemma_varint_trichotomy(s: Seq<u8>)
    ensures
        varint_complete(s) || varint_incomplete(s) || varint_malformed(s),
        varint_complete(s) ==> !varint_incomplete(s) && !varint_malformed(s),
        varint_incomplete(s) ==> !varint_complete(s) && !varint_malformed(s),
        varint_malformed(s) ==> !varint_complete(s) && !varint_incomplete(s),
{
    lemma_varint_lead_bounds(s);
}

/// The canonical encoding of any value is 1 to 5 bytes long, and only values
/// of at least 2^28 take all 5 bytes.
pub proof fn lemma_varint_encode_len(v: u32)
    ensures
        1 <= varint_encode(v).len() <= 5,
        varint_encode(v).len() == 1 <==> v < 128,
        varint_encode(v).len() == 2 <==> 128 <= v < 16384,
        varint_encode(v).len() == 3 <==> 16384 <= v < 2097152,
        varint_encode(v).len() == 4 <==> 2097152 <= v < 268435456,
        varint_encode(v).len() == 5 <==> 268435456 <= v,
    decreases v,
{
    if v >= 128 {
        lemma_varint_encode_len(v / 128);
    }
}

/// Round trip: a buffer that starts with the canonical encoding of `v`
/// decodes as complete, yields exactly `v`, and consumes exactly the
/// encoding's bytes, whatever follows them.
pub proof fn lemma_varint_round_trip(v: u32, rest: Seq<u8>)
    ensures
        varint_complete(varint_encode(v) + rest),
        varint_wire_len(varint_encode(v) + rest) == varint_encode(v).len(),
        varint_value(varint_encode(v) + rest) == v,
    decreases v,
{
    let s = varint_encode(v) + rest;
    lemma_varint_encode_len(v);
    if v < 128 {
        assert(s[0] == v as u8);
    } else {
        let tail = varint_encode(v / 128) + rest;
        lemma_varint_round_trip(v / 128, rest);
        assert(s.skip(1) =~= tail);
        assert(s[0] == (v % 128 + 128) as u8);
        lemma_varint_encode_len(v / 128);
        assert(varint_value_i(s) == v % 128 + 128 * varint_value_i(tail));
        lemma_varint_value_mod(v, varint_value_i(tail));
    }
}

/// Arithmetic step of the round trip: accumulating one more group commutes
/// with the 32-bit truncation.
proof fn lemma_varint_value_mod(v: u32, t: int)
    requires
        v >= 128,
        t % 0x1_0000_0000 == (v / 128) as int,
    ensures
        (v % 128 + 128 * t) % 0x1_0000_0000 == v,
{
    let m: int = 0x1_0000_0000;
    let d: int = 0x200_0000;
    vstd::arithmetic::div_mod::lemma_fundamental_div_mod(t, d);
    let q = t / d;
    let r = t % d;
    assert(128 * t == m * q + 128 * r) by (nonlinear_arith)
        requires
            t == d * q + r,
            d == 0x200_0000,
            m == 0x1_0000_0000,
    ;
    vstd::arithmetic::div_mod::lemma_mod_multiples_vanish(q, v % 128 + 128 * r, m);
    assert(d * 128 == m);
    vstd::arithmetic::div_mod::lemma_mod_mod(t, d, 128);
    assert((t % m) % d == r);
    vstd::arithmetic::div_mod::lemma_small_mod((v / 128) as nat, d as nat);
    assert(r == (v / 128) as int);
    vstd::arithmetic::div_mod::lemma_fundamental_div_mod(v as int, 128);
    assert(v % 128 + 128 * r == v as int);
    vstd::arithmetic::div_mod::lemma_small_mod(v as nat, m as nat);
}

/// Retry stability: once a buffer holds a complete encoding, appending more
/// bytes changes neither the decoded value nor the number of bytes consumed;
/// and a malformed prefix stays malformed. When every present byte still
/// carries the continuation flag, the appended bytes simply continue the
/// count.
pub proof fn lemma_varint_decode_extend(s: Seq<u8>, more: Seq<u8>)
    ensures
        varint_lead(s) < s.len() ==> varint_lead(s + more) == varint_lead(s) && varint_value_i(
            s + more,
        ) == varint_value_i(s),
        varint_lead(s) == s.len() ==> varint_lead(s + more) == s.len() + varint_lead(more),
        varint_complete(s) ==> varint_complete(s + more) && varint_wire_len(s + more)
            == varint_wire_len(s) && varint_value(s + more) == varint_value(s),
        varint_malformed(s) ==> varint_malformed(s + more),
    decreases s.len(),
{
    lemma_varint_lead_bounds(s);
    lemma_varint_lead_bounds(more);
    lemma_varint_lead_bounds(s + more);
    if s.len() == 0 {
        assert(s + more =~= more);
    } else if s[0] < 128 {
        assert((s + more)[0] == s[0]);
    } else {
        lemma_varint_lead_bounds(s.skip(1));
        lemma_varint_decode_extend(s.skip(1), more);
        assert((s + more).skip(1) =~= s.skip(1) + more);
        assert((s + more)[0] == s[0]);
    }
}

} // verus!
