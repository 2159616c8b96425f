//! Bounded, cursor-based access to byte sequences.
//!
//! [`ReadBuffer`] reads fixed-width scalars, VarInts and length-prefixed
//! text from a byte sequence behind a monotonically advancing cursor; a
//! failed read leaves the cursor exactly where it was, so the same buffer
//! can be retried once more bytes arrive. [`WriteBuffer`] appends the same
//! forms. Every length-prefixed read is bounded by a caller-supplied
//! maximum before any allocation proportional to the declared length.
use vstd::prelude::*;

use crate::DecodeError;
use crate::EncodeError;
use crate::varint::VarInt;
use crate::varint::varint_complete;
use crate::varint::varint_encode;
use crate::varint::varint_incomplete;
use crate::varint::varint_lead;
use crate::varint::varint_malformed;
use crate::varint::varint_value;
use crate::varint::varint_value_i;
use crate::varint::varint_wire_len;
use crate::varint::lemma_varint_lead_bounds;

verus! {

/// 128^n; the weight of the n-th 7-bit group of a VarInt.
pub open spec fn pow128(n: int) -> int
    decreases n,
{
    if n <= 0 {
        1
    } else {
        128 * pow128(n - 1)
    }
}

proof fn lemma_pow128_pos(n: int)
    ensures
        pow128(n) >= 1,
    decreases n,
{
    if n > 0 {
        lemma_pow128_pos(n - 1);
    }
}

proof fn lemma_pow128_mono(a: int, b: int)
    requires
        a <= b,
    ensures
        pow128(a) <= pow128(b),
    decreases b - a,
{
    if a < b {
        lemma_pow128_mono(a, b - 1);
        lemma_pow128_pos(b - 1);
    }
}

proof fn lemma_pow128_vals()
    ensures
        pow128(0) == 1,
        pow128(1) == 128,
        pow128(2) == 16384,
        pow128(3) == 2097152,
        pow128(4) == 268435456,
        pow128(5) == 34359738368,
{
    reveal_with_fuel(pow128, 6);
}

/// The big-endian 32-bit value held by `s[i .. i + 4]`.
pub open spec fn be32_at(s: Seq<u8>, i: int) -> int
    recommends
        0 <= i,
        i + 4 <= s.len(),
{
    0x1000000 * (s[i] as int) + 0x10000 * (s[i + 1] as int) + 0x100 * (s[i + 2] as int) + (
    s[i + 3] as int)
}

/// A length-prefixed text field starts at `s[0]`, its declared length is
/// within `max`, all its bytes are present, and they are well-formed UTF-8.
pub open spec fn string_found(s: Seq<u8>, max: int) -> bool {
    varint_complete(s) && varint_value(s) <= max && varint_wire_len(s) + varint_value(s)
        <= s.len() && vstd::utf8::valid_utf8(string_body(s))
}

/// The content bytes of the length-prefixed text field at `s[0]`.
pub open spec fn string_body(s: Seq<u8>) -> Seq<u8>
    recommends
        varint_complete(s),
{
    s.subrange(varint_wire_len(s), varint_wire_len(s) + varint_value(s))
}

/// The characters of the length-prefixed text field at `s[0]`.
pub open spec fn string_value(s: Seq<u8>) -> Seq<char> {
    vstd::utf8::decode_utf8(string_body(s))
}

/// Bytes consumed by a complete length-prefixed text read: prefix plus body.
pub open spec fn string_wire_len(s: Seq<u8>) -> int {
    varint_wire_len(s) + varint_value(s)
}

/// More bytes could still complete the text field: the length prefix itself
/// is unfinished, or the declared (and acceptable) length exceeds what is
/// present.
pub open spec fn string_incomplete(s: Seq<u8>, max: int) -> bool {
    varint_incomplete(s) || (varint_complete(s) && varint_value(s) <= max && varint_wire_len(s)
        + varint_value(s) > s.len())
}

/// The text field can never be read: bad length prefix, a declared length
/// over the caller's maximum, or content that is not UTF-8.
pub open spec fn string_malformed(s: Seq<u8>, max: int) -> bool {
    varint_malformed(s) || (varint_complete(s) && varint_value(s) > max) || (varint_complete(s)
        && varint_value(s) <= max && varint_wire_len(s) + varint_value(s) <= s.len()
        && !vstd::utf8::valid_utf8(string_body(s)))
}

/// The full wire form of the text `t`: a VarInt holding the UTF-8 byte
/// length, then the UTF-8 bytes themselves.
pub open spec fn string_wire(t: Seq<char>) -> Seq<u8> {
    varint_encode(vstd::utf8::encode_utf8(t).len() as u32) + vstd::utf8::encode_utf8(t)
}

/// UTF-8 encoding distributes over concatenation of character sequences.
pub proof fn lemma_encode_utf8_append(a: Seq<char>, b: Seq<char>)
    ensures
        vstd::utf8::encode_utf8(a + b) == vstd::utf8::encode_utf8(a) + vstd::utf8::encode_utf8(b),
    decreases a.len(),
{
    if a.len() == 0 {
        assert(a + b =~= b);
        assert(vstd::utf8::encode_utf8(a) + vstd::utf8::encode_utf8(b) =~= vstd::utf8::encode_utf8(
            b,
        ));
    } else {
        lemma_encode_utf8_append(a.drop_first(), b);
        assert((a + b).drop_first() =~= a.drop_first() + b);
        assert((a + b)[0] == a[0]);
        assert(vstd::utf8::encode_utf8(a + b) =~= vstd::utf8::encode_utf8(a)
            + vstd::utf8::encode_utf8(b));
    }
}

/// The three outcomes of a bounded text read are mutually exclusive and
/// cover every byte sequence.
pub proof fn lemma_string_trichotomy(s: Seq<u8>, max: int)
    ensures
        string_found(s, max) || string_incomplete(s, max) || string_malformed(s, max),
        string_found(s, max) ==> !string_incomplete(s, max) && !string_malformed(s, max),
        string_incomplete(s, max) ==> !string_found(s, max) && !string_malformed(s, max),
        string_malformed(s, max) ==> !string_found(s, max) && !string_incomplete(s, max),
{
    crate::varint::lemma_varint_trichotomy(s);
}

/// Round trip for bounded text: a buffer that starts with the wire form of
/// `t` reads back exactly `t` and consumes exactly the wire form's bytes,
/// whatever follows them, for any bound that the text fits in.
pub proof fn lemma_string_round_trip(t: Seq<char>, max: int, rest: Seq<u8>)
    requires
        vstd::utf8::encode_utf8(t).len() <= max,
        max <= 0xFFFF_FFFF,
    ensures
        string_found(string_wire(t) + rest, max),
        string_value(string_wire(t) + rest) == t,
        string_wire_len(string_wire(t) + rest) == string_wire(t).len(),
{
    let body = vstd::utf8::encode_utf8(t);
    let l: u32 = body.len() as u32;
    let s = string_wire(t) + rest;
    assert(s =~= varint_encode(l) + (body + rest));
    crate::varint::lemma_varint_round_trip(l, body + rest);
    assert(varint_value(s) == body.len());
    assert(string_body(s) =~= body) by {
        assert forall|k: int| 0 <= k < body.len() implies string_body(s)[k] == body[k] by {
            assert(string_body(s)[k] == s[varint_wire_len(s) + k]);
            assert(s[varint_encode(l).len() + k] == (body + rest)[k]);
        }
        lemma_varint_lead_bounds(s);
    }
    vstd::utf8::encode_utf8_valid_utf8(t);
    vstd::utf8::encode_utf8_decode_utf8(t);
}

/// Relies on std's String::from_utf8: it returns Ok exactly when the bytes
/// are well-formed UTF-8, and then holds the characters that the UTF-8
/// format assigns to those bytes.
#[verifier::external_body]
fn string_from_utf8(bytes: Vec<u8>) -> (r: Option<String>)
    ensures
        r is Some <==> vstd::utf8::valid_utf8(bytes@),
        r matches Some(s) ==> s@ == vstd::utf8::decode_utf8(bytes@),
{
    String::from_utf8(bytes).ok()
}

/// A byte sequence read through a bounds-checked cursor.
pub struct ReadBuffer {
    data: Vec<u8>,
    pos: usize,
}

impl ReadBuffer {
    /// The whole underlying byte sequence, consumed part included.
    pub closed spec fn bytes(&self) -> Seq<u8> {
        self.data@
    }

    /// The read cursor: how many bytes have been consumed.
    pub closed spec fn position(&self) -> int {
        self.pos as int
    }

    /// The cursor never runs past the end of the data.
    pub open spec fn wf(&self) -> bool {
        0 <= self.position() <= self.bytes().len()
    }

    /// The bytes not yet consumed.
    pub open spec fn remaining(&self) -> Seq<u8> {
        self.bytes().skip(self.position())
    }

    pub fn new(data: Vec<u8>) -> (r: ReadBuffer)
        ensures
            r.wf(),
            r.bytes() == data@,
            r.position() == 0,
    {
        ReadBuffer { data, pos: 0 }
    }

    /// The current cursor, for callers that frame or log their progress.
    pub fn cursor(&self) -> (n: usize)
        ensures
            n == self.position(),
    {
        self.pos
    }

    /// Rewind to a cursor saved earlier, so that a composite read that
    /// fails midway can leave the buffer as it found it.
    pub(crate) fn set_cursor(&mut self, mark: usize)
        requires
            old(self).wf(),
            mark <= old(self).bytes().len(),
        ensures
            final(self).wf(),
            final(self).bytes() == old(self).bytes(),
            final(self).position() == mark as int,
    {
        self.pos = mark;
    }

    pub fn remaining_len(&self) -> (n: usize)
        requires
            self.wf(),
        ensures
            n == self.remaining().len(),
    {
        self.data.len() - self.pos
    }

    /// Append newly arrived bytes behind the unread part, leaving the
    /// cursor alone; a read that earlier failed as `Incomplete` can then
    /// be retried.
    pub fn feed(&mut self, more: &[u8])
        requires
            old(self).wf(),
        ensures
            final(self).wf(),
            final(self).bytes() == old(self).bytes() + more@,
            final(self).position() == old(self).position(),
    {
        let mut j: usize = 0;
        while j < more.len()
            invariant
                self.wf(),
                j <= more@.len(),
                self.bytes() == old(self).bytes() + more@.take(j as int),
                self.position() == old(self).position(),
            decreases more@.len() - j,
        {
            let b = more[j];
            self.data.push(b);
            j = j + 1;
            proof {
                assert(old(self).bytes() + more@.take(j as int) =~= (old(self).bytes()
                    + more@.take(j - 1)).push(more@[j - 1]));
            }
        }
        proof {
            assert(more@.take(more@.len() as int) =~= more@);
        }
    }

    /// Read one byte.
    pub fn try_get_u8(&mut self) -> (r: Result<u8, DecodeError>)
        requires
            old(self).wf(),
        ensures
            final(self).wf(),
            final(self).bytes() == old(self).bytes(),
            match r {
                Ok(b) => old(self).remaining().len() >= 1 && b == old(self).remaining()[0]
                    && final(self).position() == old(self).position() + 1,
                Err(e) => e == DecodeError::Incomplete && old(self).remaining().len() == 0
                    && final(self).position() == old(self).position(),
            },
    {
        if self.pos < self.data.len() {
            let b = self.data[self.pos];
            self.pos = self.pos + 1;
            Ok(b)
        } else {
            Err(DecodeError::Incomplete)
        }
    }

    /// Read one byte as a boolean; any nonzero byte counts as true.
    pub fn try_get_bool(&mut self) -> (r: Result<bool, DecodeError>)
        requires
            old(self).wf(),
        ensures
            final(self).wf(),
            final(self).bytes() == old(self).bytes(),
            match r {
                Ok(b) => old(self).remaining().len() >= 1 && b == (old(self).remaining()[0] != 0)
                    && final(self).position() == old(self).position() + 1,
                Err(e) => e == DecodeError::Incomplete && old(self).remaining().len() == 0
                    && final(self).position() == old(self).position(),
            },
    {
        match self.try_get_u8() {
            Ok(b) => Ok(b != 0),
            Err(e) => Err(e),
        }
    }

    /// Read a big-endian 32-bit word, as carried by fixed-width scalar
    /// fields (among them the bit patterns of floating-point components).
    pub fn try_get_u32_be(&mut self) -> (r: Result<u32, DecodeError>)
        requires
            old(self).wf(),
        ensures
            final(self).wf(),
            final(self).bytes() == old(self).bytes(),
            match r {
                Ok(v) => old(self).remaining().len() >= 4 && v == be32_at(old(self).remaining(), 0)
                    && final(self).position() == old(self).position() + 4,
                Err(e) => e == DecodeError::Incomplete && old(self).remaining().len() < 4
                    && final(self).position() == old(self).position(),
            },
    {
        if self.data.len() - self.pos < 4 {
            return Err(DecodeError::Incomplete);
        }
        let b0 = self.data[self.pos];
        let b1 = self.data[self.pos + 1];
        let b2 = self.data[self.pos + 2];
        let b3 = self.data[self.pos + 3];
        self.pos = self.pos + 4;
        let v: u32 = 0x1000000 * (b0 as u32) + 0x10000 * (b1 as u32) + 0x100 * (b2 as u32) + (
        b3 as u32);
        Ok(v)
    }

    /// Read a VarInt: up to five 7-bit groups, terminated by a byte without
    /// the continuation flag. The three outcomes follow the decode
    /// trichotomy of the format exactly.
    pub fn try_get_var_int(&mut self) -> (r: Result<VarInt, DecodeError>)
        requires
            old(self).wf(),
        ensures
            final(self).wf(),
            final(self).bytes() == old(self).bytes(),
            match r {
                Ok(v) => varint_complete(old(self).remaining()) && v.uval() == varint_value(
                    old(self).remaining(),
                ) && final(self).position() == old(self).position() + varint_wire_len(
                    old(self).remaining(),
                ),
                Err(DecodeError::Incomplete) => varint_incomplete(old(self).remaining()) && final(self).position() == old(self).position(),
                Err(DecodeError::Malformed) => varint_malformed(old(self).remaining()) && final(self).position() == old(self).position(),
            },
    {
        let ghost s = self.remaining();
        let mut acc: u64 = 0;
        let mut mult: u64 = 1;
        let mut i: usize = 0;
        proof {
            lemma_pow128_vals();
            assert(s.skip(0) =~= s);
        }
        while i < 5
            invariant
                self.wf(),
                self.bytes() == old(self).bytes(),
                self.position() == old(self).position(),
                s == self.remaining(),
                0 <= i <= 5,
                i <= s.len(),
                mult == pow128(i as int),
                0 <= acc < mult,
                varint_value_i(s) == acc + mult * varint_value_i(s.skip(i as int)),
                varint_lead(s) == i + varint_lead(s.skip(i as int)),
            decreases 5 - i,
        {
            proof {
                lemma_pow128_vals();
                lemma_pow128_pos(i as int);
                lemma_pow128_mono(i as int, 4);
            }
            if i >= self.data.len() - self.pos {
                proof {
                    assert(s.skip(i as int) =~= Seq::<u8>::empty());
                }
                return Err(DecodeError::Incomplete);
            }
            let b = self.data[self.pos + i];
            proof {
                assert(s.skip(i as int)[0] == s[i as int]);
                assert(s[i as int] == b);
            }
            if b < 128 {
                proof {
                    assert(varint_value_i(s.skip(i as int)) == b as int);
                    assert(varint_lead(s.skip(i as int)) == 0);
                    assert(acc + mult * (b as int) < mult * 128) by (nonlinear_arith)
                        requires
                            acc < mult,
                            b < 128,
                            mult >= 1,
                    ;
                    assert(mult * 128 <= 34359738368) by (nonlinear_arith)
                        requires
                            mult <= 268435456,
                    ;
                }
                let total: u64 = acc + mult * (b as u64);
                let val: u32 = (total % 0x1_0000_0000) as u32;
                self.pos = self.pos + i + 1;
                proof {
                    assert((val as i32) as u32 == val) by (bit_vector);
                }
                return Ok(VarInt(val as i32));
            }
            proof {
                assert(varint_value_i(s.skip(i as int)) == (b - 128) + 128 * varint_value_i(
                    s.skip(i as int).skip(1),
                ));
                assert(varint_lead(s.skip(i as int)) == 1 + varint_lead(s.skip(i as int).skip(1)));
                assert(s.skip(i as int).skip(1) =~= s.skip(i + 1));
                assert(acc + mult * ((b - 128) as int) < mult * 128) by (nonlinear_arith)
                    requires
                        acc < mult,
                        b - 128 < 128,
                        mult >= 1,
                ;
                assert(mult * 128 <= 34359738368) by (nonlinear_arith)
                    requires
                        mult <= 268435456,
                ;
                assert(varint_value_i(s) == (acc + mult * ((b - 128) as int)) + (mult * 128)
                    * varint_value_i(s.skip(i + 1))) by (nonlinear_arith)
                    requires
                        varint_value_i(s) == acc + mult * varint_value_i(s.skip(i as int)),
                        varint_value_i(s.skip(i as int)) == (b - 128) + 128 * varint_value_i(
                            s.skip(i + 1),
                        ),
                ;
            }
            acc = acc + mult * ((b - 128) as u64);
            mult = mult * 128;
            i = i + 1;
        }
        proof {
            lemma_varint_lead_bounds(s.skip(5));
        }
        Err(DecodeError::Malformed)
    }

    /// Read length-prefixed text whose declared byte length may not exceed
    /// `max`. The bound is checked before any allocation happens, so a
    /// hostile length field cannot make this read reserve memory.
    pub fn try_get_string_len(&mut self, max: usize) -> (r: Result<String, DecodeError>)
        requires
            old(self).wf(),
        ensures
            final(self).wf(),
            final(self).bytes() == old(self).bytes(),
            match r {
                Ok(t) => string_found(old(self).remaining(), max as int) && t@ == string_value(
                    old(self).remaining(),
                ) && final(self).position() == old(self).position() + string_wire_len(
                    old(self).remaining(),
                ),
                Err(DecodeError::Incomplete) => string_incomplete(old(self).remaining(), max as int)
                    && final(self).position() == old(self).position(),
                Err(DecodeError::Malformed) => string_malformed(old(self).remaining(), max as int)
                    && final(self).position() == old(self).position(),
            },
    {
        let ghost s = self.remaining();
        let saved = self.pos;
        let n = match self.try_get_var_int() {
            Ok(v) => v.0 as u32,
            Err(e) => {
                return Err(e);
            },
        };
        proof {
            assert(n == varint_value(s));
            assert(varint_value_i(s) % 0x1_0000_0000 >= 0);
        }
        if (n as u64) > (max as u64) {
            self.set_cursor(saved);
            return Err(DecodeError::Malformed);
        }
        let len = n as usize;
        if len > self.data.len() - self.pos {
            self.set_cursor(saved);
            return Err(DecodeError::Incomplete);
        }
        let mut body: Vec<u8> = Vec::new();
        let mut j: usize = 0;
        let base = self.pos;
        let dlen = self.data.len();
        while j < len
            invariant
                self.wf(),
                self.bytes() == old(self).bytes(),
                base == self.position(),
                j <= len,
                base + len <= dlen,
                dlen == self.bytes().len(),
                body@ =~= self.bytes().subrange(base as int, base + j),
            decreases len - j,
        {
            let b = self.data[base + j];
            body.push(b);
            j = j + 1;
            proof {
                assert(self.bytes().subrange(base as int, base + j) =~= self.bytes().subrange(
                    base as int,
                    base + j - 1,
                ).push(self.bytes()[base + j - 1]));
            }
        }
        proof {
            assert(base == saved + varint_wire_len(s));
            assert(len == varint_value(s));
            assert(s =~= self.bytes().skip(saved as int));
            lemma_varint_lead_bounds(s);
            assert(s.len() == self.bytes().len() - saved);
            assert(varint_wire_len(s) + len <= s.len());
            assert(body@ =~= string_body(s)) by {
                assert forall|k: int| 0 <= k < len implies body@[k] == string_body(s)[k] by {
                    assert(string_body(s)[k] == s[varint_wire_len(s) + k]);
                    assert(s[varint_wire_len(s) + k] == self.bytes()[saved + varint_wire_len(s)
                        + k]);
                    assert(body@[k] == self.bytes()[base + k]);
                }
                assert(body@.len() == string_body(s).len());
            }
        }
        match string_from_utf8(body) {
            Some(t) => {
                self.pos = base + len;
                Ok(t)
            },
            None => {
                self.set_cursor(saved);
                Err(DecodeError::Malformed)
            },
        }
    }
}

/// A growing byte accumulator for outbound data.
pub struct WriteBuffer {
    data: Vec<u8>,
}

impl WriteBuffer {
    /// Everything written so far.
    pub closed spec fn bytes(&self) -> Seq<u8> {
        self.data@
    }

    pub fn new() -> (r: WriteBuffer)
        ensures
            r.bytes() == Seq::<u8>::empty(),
    {
        WriteBuffer { data: Vec::new() }
    }

    pub fn len(&self) -> (n: usize)
        ensures
            n == self.bytes().len(),
    {
        self.data.len()
    }

    /// Hand the accumulated bytes to the caller (the framing layer).
    pub fn take_bytes(self) -> (r: Vec<u8>)
        ensures
            r@ == self.bytes(),
    {
        self.data
    }

    pub fn put_u8(&mut self, b: u8)
        ensures
            final(self).bytes() == old(self).bytes().push(b),
    {
        self.data.push(b);
    }

    /// Append the 1-to-5-byte VarInt form of `v`.
    pub fn put_var_int(&mut self, v: VarInt)
        ensures
            final(self).bytes() == old(self).bytes() + varint_encode(v.uval()),
    {
        let mut rem: u32 = v.0 as u32;
        let ghost whole = rem;
        while rem >= 128
            invariant
                old(self).bytes() + varint_encode(whole) =~= self.bytes() + varint_encode(rem),
            decreases rem,
        {
            let b: u8 = ((rem % 128) + 128) as u8;
            proof {
                assert(varint_encode(rem) =~= seq![b] + varint_encode(rem / 128));
                assert(self.bytes() + varint_encode(rem) =~= self.bytes().push(b) + varint_encode(
                    rem / 128,
                ));
            }
            self.data.push(b);
            rem = rem / 128;
        }
        proof {
            assert(varint_encode(rem) =~= seq![rem as u8]);
            assert(self.bytes() + varint_encode(rem) =~= self.bytes().push(rem as u8));
        }
        self.data.push(rem as u8);
    }

    /// Append length-prefixed text, refusing (rather than panicking) when
    /// the UTF-8 form of `s` is longer than `max`: outbound text can carry
    /// user-chosen content and must never be trusted to fit.
    pub fn put_string_len(&mut self, s: &str, max: usize) -> (r: Result<(), EncodeError>)
        requires
            max <= 0xFFFF_FFFF,
        ensures
            match r {
                Ok(_) => vstd::utf8::encode_utf8(s@).len() <= max && final(self).bytes() == old(
                    self,
                ).bytes() + string_wire(s@),
                Err(_) => vstd::utf8::encode_utf8(s@).len() > max && final(self).bytes() == old(
                    self,
                ).bytes(),
            },
    {
        let bytes = s.as_bytes();
        if bytes.len() > max {
            return Err(EncodeError::TooLong);
        }
        let len32: u32 = bytes.len() as u32;
        proof {
            assert((len32 as i32) as u32 == len32) by (bit_vector);
        }
        self.put_var_int(VarInt(len32 as i32));
        let ghost mid = self.bytes();
        let mut j: usize = 0;
        while j < bytes.len()
            invariant
                j <= bytes@.len(),
                self.bytes() =~= mid + bytes@.take(j as int),
            decreases bytes@.len() - j,
        {
            let b = bytes[j];
            self.data.push(b);
            j = j + 1;
            proof {
                assert(mid + bytes@.take(j as int) =~= (mid + bytes@.take(j - 1)).push(
                    bytes@[j - 1],
                ));
            }
        }
        proof {
            assert(bytes@.take(bytes@.len() as int) =~= bytes@);
            assert(self.bytes() =~= old(self).bytes() + string_wire(s@));
        }
        Ok(())
    }
}

} // verus!
