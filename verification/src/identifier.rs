//! The namespaced identifier value type.
//!
//! An identifier is a pair of a non-empty namespace and a non-empty path;
//! its one canonical textual form is `namespace:path`, split at the first
//! colon, and the namespace may not contain the delimiter. The same
//! text-conversion routines serve the binary wire path (length-prefixed
//! text) and any human-readable interchange, so the two cannot diverge.
use vstd::prelude::*;
use vstd::string::StrSliceExecFns;
use vstd::string::StringExecFns;

use crate::DecodeError;
use crate::buffer::ReadBuffer;
use crate::buffer::WriteBuffer;
use crate::buffer::lemma_encode_utf8_append;
use crate::buffer::lemma_string_round_trip;
use crate::buffer::lemma_string_trichotomy;
use crate::buffer::string_found;
use crate::buffer::string_incomplete;
use crate::buffer::string_value;
use crate::buffer::string_wire;
use crate::buffer::string_wire_len;
use crate::codec::Codec;
use crate::codec::DecodeStatus;
use crate::varint::lemma_varint_encode_len;

verus! {

/// A String identifier may occupy at most as many bytes as any other
/// length-prefixed text field: the largest positive 16-bit value.
pub const IDENTIFIER_MAX_SIZE: usize = 32767;

/// The delimiter's index in an identifier's canonical text: the position
/// of the first colon, or the text's length when it has none.
pub open spec fn delimiter_at(t: Seq<char>) -> int
    decreases t.len(),
{
    if t.len() == 0 {
        0
    } else if t[0] == ':' {
        0
    } else {
        1 + delimiter_at(t.skip(1))
    }
}

/// The text has exactly one effective split point: a first colon with a
/// non-empty namespace before it and a non-empty path after it.
pub open spec fn id_text_ok(t: Seq<char>) -> bool {
    0 < delimiter_at(t) && delimiter_at(t) + 1 < t.len()
}

/// The namespace part of a canonical text: everything before the split.
pub open spec fn id_namespace_of(t: Seq<char>) -> Seq<char> {
    t.take(delimiter_at(t))
}

/// The path part of a canonical text: everything after the split.
pub open spec fn id_path_of(t: Seq<char>) -> Seq<char> {
    t.skip(delimiter_at(t) + 1)
}

/// What the split point is: in range, a colon when in range, and the
/// first one.
pub proof fn lemma_delimiter_at(t: Seq<char>)
    ensures
        0 <= delimiter_at(t) <= t.len(),
        delimiter_at(t) < t.len() ==> t[delimiter_at(t)] == ':',
        forall|j: int| 0 <= j < delimiter_at(t) ==> t[j] != ':',
    decreases t.len(),
{
    if t.len() == 0 || t[0] == ':' {
    } else {
        lemma_delimiter_at(t.skip(1));
        assert forall|j: int| 0 <= j < delimiter_at(t) implies t[j] != ':' by {
            if j > 0 {
                assert(t[j] == t.skip(1)[j - 1]);
            }
        }
    }
}

/// Converse characterization: a position that is a colon (or the end)
/// with no colon before it is the split point.
pub proof fn lemma_delimiter_at_is(t: Seq<char>, i: int)
    requires
        0 <= i <= t.len(),
        i < t.len() ==> t[i] == ':',
        forall|j: int| 0 <= j < i ==> t[j] != ':',
    ensures
        delimiter_at(t) == i,
    decreases t.len(),
{
    if t.len() == 0 {
    } else if t[0] == ':' {
    } else {
        assert(forall|j: int| 0 <= j < i - 1 ==> t.skip(1)[j] == t[j + 1]);
        lemma_delimiter_at_is(t.skip(1), i - 1);
    }
}

/// Splitting the canonical text of a namespace without a colon recovers
/// exactly the namespace and the path.
pub proof fn lemma_canonical_split(ns: Seq<char>, path: Seq<char>)
    requires
        ns.len() > 0,
        !ns.contains(':'),
    ensures
        delimiter_at(ns + seq![':'] + path) == ns.len(),
        id_namespace_of(ns + seq![':'] + path) == ns,
        id_path_of(ns + seq![':'] + path) == path,
{
    let t = ns + seq![':'] + path;
    assert(forall|j: int| 0 <= j < ns.len() ==> t[j] == ns[j]);
    assert(forall|j: int| 0 <= j < ns.len() ==> t[j] != ':');
    assert(t[ns.len() as int] == ':');
    lemma_delimiter_at_is(t, ns.len() as int);
    assert(id_namespace_of(t) =~= ns);
    assert(id_path_of(t) =~= path);
}

/// A namespaced key: `namespace:path`. Equality and hashing go by the
/// pair, not by any raw text.
#[derive(Debug, Clone, PartialEq, Eq, Hash)]
pub struct Identifier {
    pub namespace: String,
    pub path: String,
}

/// The mathematical content of an identifier: its two character
/// sequences.
pub ghost struct IdModel {
    pub namespace: Seq<char>,
    pub path: Seq<char>,
}

impl Identifier {
    /// The canonical text: namespace, the delimiter, path.
    pub open spec fn canonical(&self) -> Seq<char> {
        self.namespace@ + seq![':'] + self.path@
    }

    /// An identifier under the well-known default namespace.
    pub fn vanilla(path: &str) -> (r: Identifier)
        ensures
            r.namespace@ == "minecraft"@,
            r.path@ == path@,
    {
        Identifier { namespace: "minecraft".to_owned(), path: path.to_owned() }
    }

    /// Render the canonical text. This one routine serves both the wire
    /// encoder and any human-readable output.
    pub fn to_text(&self) -> (r: String)
        ensures
            r@ == self.canonical(),
    {
        let mut r = String::from_str(self.namespace.as_str());
        r.append(":");
        r.append(self.path.as_str());
        proof {
            reveal_strlit(":");
            assert(r@ =~= self.canonical());
        }
        r
    }

    /// Parse canonical text back into its parts, splitting at the first
    /// colon. Text without a delimiter, or with an empty namespace or
    /// path, violates the format: that is `Malformed`, never a matter of
    /// waiting for more bytes.
    pub fn from_text(s: &str) -> (r: Result<Identifier, DecodeError>)
        ensures
            match r {
                Ok(id) => id_text_ok(s@) && id.namespace@ == id_namespace_of(s@) && id.path@
                    == id_path_of(s@),
                Err(e) => e == DecodeError::Malformed && !id_text_ok(s@),
            },
    {
        let n = s.unicode_len();
        let mut i: usize = 0;
        while i < n
            invariant
                n == s@.len(),
                0 <= i <= n,
                forall|j: int| 0 <= j < i ==> s@[j] != ':',
            decreases n - i,
        {
            let c = s.get_char(i);
            if c == ':' {
                proof {
                    lemma_delimiter_at_is(s@, i as int);
                }
                if i == 0 || i + 1 >= n {
                    return Err(DecodeError::Malformed);
                }
                let ns = s.substring_char(0, i);
                let p = s.substring_char(i + 1, n);
                let id = Identifier { namespace: String::from_str(ns), path: String::from_str(p) };
                proof {
                    assert(id.namespace@ =~= id_namespace_of(s@));
                    assert(id.path@ =~= id_path_of(s@));
                }
                return Ok(id);
            }
            i = i + 1;
        }
        proof {
            lemma_delimiter_at_is(s@, n as int);
        }
        Err(DecodeError::Malformed)
    }
}

impl Codec for Identifier {
    type Model = IdModel;

    open spec fn model(&self) -> IdModel {
        IdModel { namespace: self.namespace@, path: self.path@ }
    }

    open spec fn valid(&self) -> bool {
        self.namespace@.len() > 0 && self.path@.len() > 0 && !self.namespace@.contains(':')
            && vstd::utf8::encode_utf8(self.canonical()).len() <= IDENTIFIER_MAX_SIZE
    }

    open spec fn wire(&self) -> Seq<u8> {
        string_wire(self.canonical())
    }

    open spec fn spec_max_size() -> int {
        IDENTIFIER_MAX_SIZE as int
    }

    open spec fn dec_status(bytes: Seq<u8>) -> DecodeStatus {
        if string_found(bytes, IDENTIFIER_MAX_SIZE as int) {
            if id_text_ok(string_value(bytes)) {
                DecodeStatus::Found
            } else {
                DecodeStatus::Malformed
            }
        } else if string_incomplete(bytes, IDENTIFIER_MAX_SIZE as int) {
            DecodeStatus::Incomplete
        } else {
            DecodeStatus::Malformed
        }
    }

    open spec fn dec_model(bytes: Seq<u8>) -> IdModel {
        IdModel {
            namespace: id_namespace_of(string_value(bytes)),
            path: id_path_of(string_value(bytes)),
        }
    }

    open spec fn dec_len(bytes: Seq<u8>) -> int {
        string_wire_len(bytes)
    }

    proof fn lemma_round_trip(&self, rest: Seq<u8>) {
        let t = self.canonical();
        lemma_string_round_trip(t, IDENTIFIER_MAX_SIZE as int, rest);
        lemma_string_trichotomy(self.wire() + rest, IDENTIFIER_MAX_SIZE as int);
        lemma_canonical_split(self.namespace@, self.path@);
    }

    fn max_size() -> (n: usize) {
        IDENTIFIER_MAX_SIZE
    }

    fn written_size(&self) -> (n: usize) {
        proof {
            lemma_encode_utf8_append(self.namespace@ + seq![':'], self.path@);
            lemma_encode_utf8_append(self.namespace@, seq![':']);
            assert(self.namespace@ + seq![':'] + self.path@ =~= (self.namespace@ + seq![':'])
                + self.path@);
            assert(vstd::utf8::encode_utf8(seq![':']).len() == 1) by {
                let colon = seq![':'];
                assert(colon.drop_first() =~= Seq::<char>::empty());
                assert(vstd::utf8::encode_utf8(Seq::<char>::empty()) =~= Seq::<u8>::empty());
                assert(colon[0] == ':');
                assert(vstd::utf8::encode_utf8(colon) =~= vstd::utf8::encode_scalar(':' as u32)
                    + Seq::<u8>::empty());
                assert((':' as u32) < 0x80);
                assert(vstd::utf8::encode_scalar(':' as u32).len() == 1);
            }
        }
        let nb = self.namespace.as_str().as_bytes().len();
        let pb = self.path.as_str().as_bytes().len();
        let text_len = nb + 1 + pb;
        proof {
            assert(text_len == vstd::utf8::encode_utf8(self.canonical()).len());
            lemma_varint_encode_len(text_len as u32);
        }
        let header = if text_len < 128 {
            1
        } else if text_len < 16384 {
            2
        } else {
            3
        };
        header + text_len
    }

    fn encode(&self, out: &mut WriteBuffer) {
        let text = self.to_text();
        match out.put_string_len(text.as_str(), IDENTIFIER_MAX_SIZE) {
            Ok(_) => {},
            Err(_) => {
                proof {
                    assert(false);
                }
            },
        }
    }

    fn decode(buf: &mut ReadBuffer) -> (r: Result<Identifier, DecodeError>) {
        let ghost rem = buf.remaining();
        proof {
            lemma_string_trichotomy(rem, IDENTIFIER_MAX_SIZE as int);
        }
        let saved = buf.cursor();
        let text = match buf.try_get_string_len(IDENTIFIER_MAX_SIZE) {
            Ok(t) => t,
            Err(e) => {
                return Err(e);
            },
        };
        match Identifier::from_text(text.as_str()) {
            Ok(id) => {
                proof {
                    let t = string_value(rem);
                    lemma_delimiter_at(t);
                    vstd::utf8::decode_utf8_encode_utf8(crate::buffer::string_body(rem));
                    assert(id.canonical() =~= t);
                    assert forall|j: int| 0 <= j < id.namespace@.len() implies id.namespace@[j]
                        != ':' by {
                        assert(id.namespace@[j] == t[j]);
                    }
                    assert(!id.namespace@.contains(':'));
                    assert(vstd::utf8::encode_utf8(id.canonical()) == crate::buffer::string_body(
                        rem,
                    ));
                    crate::varint::lemma_varint_lead_bounds(rem);
                    assert(crate::buffer::string_body(rem).len() == crate::varint::varint_value(
                        rem,
                    ));
                    assert(id.valid());
                    assert(Self::dec_status(rem) == DecodeStatus::Found);
                    assert(id.model() == Self::dec_model(rem));
                }
                Ok(id)
            },
            Err(_) => {
                buf.set_cursor(saved);
                Err(DecodeError::Malformed)
            },
        }
    }
}

} // verus!
