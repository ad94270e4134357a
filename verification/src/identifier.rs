//! Namespaced identifiers: `namespace:value` strings with restricted
//! character sets, defaulting to the `minecraft` namespace.
use vstd::prelude::*;

use crate::codec::{parse_string, varint_encode, write_u8, write_varint, DecodeError};
use crate::data_types::{Packet, PacketWrite};

verus! {

use vstd::utf8::{
    decode_utf8, encode_utf8, partial_valid_utf8_extend_ascii_block, valid_utf8,
};
use vstd::string::StringSliceAdditionalSpecFns;

/// Mathematical value of an identifier: its two character sequences.
pub ghost struct SpecIdentifier {
    /// The namespace characters.
    pub namespace: Seq<char>,
    /// The value characters.
    pub value: Seq<char>,
}

/// A namespaced identifier.
#[derive(Debug, Clone)]
pub struct Identifier {
    /// The namespace part, before the colon.
    pub namespace: String,
    /// The value part, after the colon.
    pub value: String,
}

impl View for Identifier {
    type V = SpecIdentifier;

    open spec fn view(&self) -> SpecIdentifier {
        SpecIdentifier { namespace: self.namespace@, value: self.value@ }
    }
}

/// Whether a byte may appear in a namespace: `[a-z0-9._-]` in ASCII.
pub open spec fn is_namespace_byte(b: u8) -> bool {
    (97 <= b <= 122) || (48 <= b <= 57) || b == 46 || b == 45 || b == 95
}

/// Whether a byte may appear in a value: the namespace set plus `/`.
pub open spec fn is_value_byte(b: u8) -> bool {
    is_namespace_byte(b) || b == 47
}

/// Whether every byte of a namespace is allowed.
pub open spec fn valid_namespace_bytes(s: Seq<u8>) -> bool {
    forall|i: int| 0 <= i < s.len() ==> is_namespace_byte(#[trigger] s[i])
}

/// Whether every byte of a value is allowed.
pub open spec fn valid_value_bytes(s: Seq<u8>) -> bool {
    forall|i: int| 0 <= i < s.len() ==> is_value_byte(#[trigger] s[i])
}

/// The first index of a colon byte at or after `i`, or the length if none.
pub open spec fn first_colon(b: Seq<u8>, i: int) -> int
    decreases b.len() - i,
{
    if i < 0 || i >= b.len() {
        b.len() as int
    } else if b[i] == 58 {
        i
    } else {
        first_colon(b, i + 1)
    }
}

/// How the string bytes `b` read as an identifier: split at the first
/// colon, or the whole string as the value under the default namespace;
/// `None` when a part holds a byte outside its allowed set.
pub open spec fn split_identifier(b: Seq<u8>) -> Option<SpecIdentifier> {
    let c = first_colon(b, 0);
    let nsb = if c == b.len() {
        encode_utf8("minecraft"@)
    } else {
        b.subrange(0, c)
    };
    let valb = if c == b.len() {
        b
    } else {
        b.subrange(c + 1, b.len() as int)
    };
    if valid_namespace_bytes(nsb) && valid_value_bytes(valb) {
        Some(SpecIdentifier { namespace: decode_utf8(nsb), value: decode_utf8(valb) })
    } else {
        None
    }
}

/// Parse of an identifier at `pos`: a wire string whose bytes then split
/// at the first colon.
pub open spec fn parse_identifier(data: Seq<u8>, pos: int) -> Result<(SpecIdentifier, int), DecodeError> {
    match parse_string(data, pos) {
        Err(e) => Err(e),
        Ok((s, end)) => match split_identifier(encode_utf8(s)) {
            Some(id) => Ok((id, end)),
            None => Err(DecodeError::InvalidIdentifier),
        },
    }
}

/// The body an identifier writes: namespace bytes, a colon, value bytes.
pub open spec fn identifier_body(id: SpecIdentifier) -> Seq<u8> {
    encode_utf8(id.namespace) + seq![58u8] + encode_utf8(id.value)
}

/// The wire bytes of an identifier: a string holding `namespace:value`.
pub open spec fn identifier_bytes(id: SpecIdentifier) -> Seq<u8> {
    varint_encode(identifier_body(id).len() as u32) + identifier_body(id)
}

/// Bytes that are all ASCII form valid UTF-8.
pub proof fn lemma_ascii_valid_utf8(b: Seq<u8>)
    requires
        forall|i: int| 0 <= i < b.len() ==> #[trigger] b[i] < 128,
    ensures
        valid_utf8(b),
{
    assert(b.subrange(0, 0) =~= Seq::<u8>::empty());
    partial_valid_utf8_extend_ascii_block(b, 0, b.len() as int);
    assert(b.subrange(0, b.len() as int) =~= b);
}

proof fn lemma_first_colon_found(b: Seq<u8>, i: int, k: int)
    requires
        0 <= i <= k <= b.len(),
        forall|j: int| i <= j < k ==> #[trigger] b[j] != 58,
        k < b.len() ==> b[k] == 58,
    ensures
        first_colon(b, i) == if k == b.len() { b.len() as int } else { k },
    decreases k - i,
{
    if i < k {
        lemma_first_colon_found(b, i + 1, k);
    }
}

/// Checks that every byte of `s` is allowed in a namespace.
fn check_namespace_bytes(s: &[u8]) -> (r: bool)
    ensures
        r == valid_namespace_bytes(s@),
{
    let mut i: usize = 0;
    while i < s.len()
        invariant
            i <= s@.len(),
            forall|j: int| 0 <= j < i ==> is_namespace_byte(#[trigger] s@[j]),
        decreases s@.len() - i,
    {
        let b = s[i];
        if !((97 <= b && b <= 122) || (48 <= b && b <= 57) || b == 46 || b == 45 || b == 95) {
            return false;
        }
        i = i + 1;
    }
    true
}

/// Checks that every byte of `s` is allowed in a value.
fn check_value_bytes(s: &[u8]) -> (r: bool)
    ensures
        r == valid_value_bytes(s@),
{
    let mut i: usize = 0;
    while i < s.len()
        invariant
            i <= s@.len(),
            forall|j: int| 0 <= j < i ==> is_value_byte(#[trigger] s@[j]),
        decreases s@.len() - i,
    {
        let b = s[i];
        if !((97 <= b && b <= 122) || (48 <= b && b <= 57) || b == 46 || b == 45 || b == 95
            || b == 47) {
            return false;
        }
        i = i + 1;
    }
    true
}

impl Identifier {
    /// Builds an identifier from its two parts, unvalidated.
    pub fn new(namespace: &str, value: &str) -> (r: Self)
        ensures
            r@ == (SpecIdentifier { namespace: namespace@, value: value@ }),
    {
        Identifier {
            namespace: <String as vstd::string::StringExecFns>::from_str(namespace),
            value: <String as vstd::string::StringExecFns>::from_str(value),
        }
    }

    /// Builds an identifier under the default `minecraft` namespace.
    pub fn minecraft(value: &str) -> (r: Self)
        ensures
            r@ == (SpecIdentifier { namespace: "minecraft"@, value: value@ }),
    {
        Identifier::new("minecraft", value)
    }

    /// Whether a character is allowed in a namespace: `[a-z0-9._-]`.
    pub fn is_valid_namespace_char(c: char) -> (r: bool)
        ensures
            r == (('a' <= c && c <= 'z') || ('0' <= c && c <= '9') || c == '.' || c == '-'
                || c == '_'),
    {
        ('a' <= c && c <= 'z') || ('0' <= c && c <= '9') || c == '.' || c == '-' || c == '_'
    }

    /// Whether a character is allowed in a value: `[a-z0-9._-/]`.
    pub fn is_valid_value_char(c: char) -> (r: bool)
        ensures
            r == (('a' <= c && c <= 'z') || ('0' <= c && c <= '9') || c == '.' || c == '-'
                || c == '_' || c == '/'),
    {
        ('a' <= c && c <= 'z') || ('0' <= c && c <= '9') || c == '.' || c == '-' || c == '_'
            || c == '/'
    }

    /// Reads an identifier out of a plain string, splitting at the first
    /// colon and validating both parts.
    pub fn from_str(s: &str) -> (r: Result<Self, DecodeError>)
        ensures
            match r {
                Ok(id) => split_identifier(encode_utf8(s@)) == Some(id@),
                Err(e) => split_identifier(encode_utf8(s@)) is None
                    && e == DecodeError::InvalidIdentifier,
            },
    {
        let bytes = s.as_bytes();
        let ghost bview = bytes@;
        let mut c: usize = 0;
        while c < bytes.len() && bytes[c] != 58
            invariant
                c <= bytes@.len(),
                forall|j: int| 0 <= j < c ==> #[trigger] bytes@[j] != 58,
        decreases bytes@.len() - c,
        {
            c = c + 1;
        }
        proof {
            lemma_first_colon_found(bview, 0, c as int);
        }
        if c == bytes.len() {
            // No colon: the whole string is the value, default namespace.
            if !check_value_bytes(bytes) {
                return Err(DecodeError::InvalidIdentifier);
            }
            let value = match crate::codec::vec_to_string(vstd::slice::slice_to_vec(bytes)) {
                Some(v) => v,
                None => {
                    proof {
                        lemma_ascii_valid_utf8(bview);
                    }
                    return Err(DecodeError::InvalidIdentifier);
                }
            };
            proof {
                lemma_ascii_valid_utf8(bview);
                reveal_strlit("minecraft");
                assert(valid_namespace_bytes(encode_utf8("minecraft"@))) by {
                    vstd::utf8::is_ascii_chars_encode_utf8("minecraft"@);
                    assert(vstd::utf8::is_ascii_chars("minecraft"@));
                }
                vstd::utf8::encode_utf8_decode_utf8("minecraft"@);
            }
            Ok(Identifier {
                namespace: <String as vstd::string::StringExecFns>::from_str("minecraft"),
                value,
            })
        } else {
            let nsb = vstd::slice::slice_subrange(bytes, 0, c);
            let valb = vstd::slice::slice_subrange(bytes, c + 1, bytes.len());
            if !check_namespace_bytes(nsb) || !check_value_bytes(valb) {
                return Err(DecodeError::InvalidIdentifier);
            }
            proof {
                lemma_ascii_valid_utf8(nsb@);
                lemma_ascii_valid_utf8(valb@);
            }
            let namespace = match crate::codec::vec_to_string(vstd::slice::slice_to_vec(nsb)) {
                Some(v) => v,
                None => {
                    return Err(DecodeError::InvalidIdentifier);
                }
            };
            let value = match crate::codec::vec_to_string(vstd::slice::slice_to_vec(valb)) {
                Some(v) => v,
                None => {
                    return Err(DecodeError::InvalidIdentifier);
                }
            };
            Ok(Identifier { namespace, value })
        }
    }

    /// Whether two identifiers have the same namespace and value.
    pub fn equals(&self, other: &Identifier) -> (r: bool)
        ensures
            r == (self@ == other@),
    {
        let same = self.namespace == other.namespace && self.value == other.value;
        proof {
            if self@ == other@ {
                assert(self.namespace@ == other.namespace@);
                assert(self.value@ == other.value@);
            }
        }
        same
    }
}

impl Packet for Identifier {
    open spec fn parse(data: Seq<u8>, pos: int) -> Result<(SpecIdentifier, int), DecodeError> {
        parse_identifier(data, pos)
    }

    open spec fn wf(&self) -> bool {
        valid_namespace_bytes(encode_utf8(self.namespace@)) && valid_value_bytes(
            encode_utf8(self.value@),
        ) && encode_utf8(self.namespace@).len() + 1 + encode_utf8(self.value@).len()
            <= 0x7fff_ffff
    }

    fn decode(data: &[u8], pos: usize) -> (r: Result<(Self, usize), DecodeError>) {
        let (s, end) = match crate::codec::read_string(data, pos) {
            Ok(x) => x,
            Err(e) => {
                return Err(e);
            }
        };
        match Identifier::from_str(s.as_str()) {
            Ok(id) => {
                proof {
                    lemma_split_identifier_wf(encode_utf8(s@), id@);
                }
                Ok((id, end))
            }
            Err(e) => Err(e),
        }
    }
}

/// A split that succeeds yields parts whose re-encoded bytes are the split
/// bytes themselves, so their lengths are bounded by the input's.
proof fn lemma_split_identifier_wf(b: Seq<u8>, id: SpecIdentifier)
    requires
        split_identifier(b) == Some(id),
        b.len() <= 32767,
    ensures
        valid_namespace_bytes(encode_utf8(id.namespace)),
        valid_value_bytes(encode_utf8(id.value)),
        encode_utf8(id.namespace).len() + 1 + encode_utf8(id.value).len() <= 0x7fff_ffff,
{
    let c = first_colon(b, 0);
    let nsb = if c == b.len() {
        encode_utf8("minecraft"@)
    } else {
        b.subrange(0, c)
    };
    let valb = if c == b.len() {
        b
    } else {
        b.subrange(c + 1, b.len() as int)
    };
    lemma_ascii_valid_utf8(nsb);
    lemma_ascii_valid_utf8(valb);
    vstd::utf8::decode_utf8_encode_utf8(nsb);
    vstd::utf8::decode_utf8_encode_utf8(valb);
    lemma_first_colon_range(b, 0);
    if c == b.len() {
        assert(encode_utf8("minecraft"@).len() <= 9) by {
            reveal_strlit("minecraft");
            vstd::utf8::is_ascii_chars_encode_utf8("minecraft"@);
        }
    }
}

proof fn lemma_first_colon_range(b: Seq<u8>, i: int)
    requires
        0 <= i <= b.len(),
    ensures
        i <= first_colon(b, i) <= b.len(),
    decreases b.len() - i,
{
    if i < b.len() && b[i] != 58 {
        lemma_first_colon_range(b, i + 1);
    }
}

impl PacketWrite for Identifier {
    open spec fn encoded(&self) -> Seq<u8> {
        identifier_bytes(self@)
    }

    open spec fn writable(&self) -> bool {
        encode_utf8(self.namespace@).len() + 1 + encode_utf8(self.value@).len() <= 0x7fff_ffff
    }

    fn write_to(&self, buf: &mut Vec<u8>) {
        let nsb = self.namespace.as_str().as_bytes();
        let vb = self.value.as_str().as_bytes();
        let total = nsb.len() + 1 + vb.len();
        write_varint(total as i32, buf);
        proof {
            assert((total as u32) == (total as i32) as u32) by (bit_vector)
                requires total <= 0x7fff_ffff;
        }
        crate::codec::push_bytes(buf, nsb);
        write_u8(58, buf);
        crate::codec::push_bytes(buf, vb);
        proof {
            assert(buf@ =~= old(buf)@ + identifier_bytes(self@));
        }
    }
}

} // verus!

verus! {

use crate::codec::lemma_string_round_trip;
use vstd::utf8::encode_utf8_decode_utf8;

/// Whether an identifier value is valid and small enough for the wire.
pub open spec fn identifier_wf(id: SpecIdentifier) -> bool {
    &&& valid_namespace_bytes(encode_utf8(id.namespace))
    &&& valid_value_bytes(encode_utf8(id.value))
    &&& identifier_body(id).len() <= 32767
}

/// Round trip: a valid identifier's encoding placed at `pos` parses back
/// to the same namespace and value, consuming exactly the encoding.
pub proof fn lemma_identifier_round_trip(data: Seq<u8>, pos: int, id: SpecIdentifier)
    requires
        0 <= pos,
        identifier_wf(id),
        pos + identifier_bytes(id).len() <= data.len(),
        data.subrange(pos, pos + identifier_bytes(id).len() as int) == identifier_bytes(id),
    ensures
        parse_identifier(data, pos) == Ok::<(SpecIdentifier, int), DecodeError>((
            id,
            pos + identifier_bytes(id).len(),
        )),
{
    let nsb = encode_utf8(id.namespace);
    let valb = encode_utf8(id.value);
    let body = identifier_body(id);
    // Every body byte is ASCII, so the body is one valid wire string.
    assert forall|i: int| 0 <= i < body.len() implies #[trigger] body[i] < 128 by {
        if i < nsb.len() {
            assert(body[i] == nsb[i]);
        } else if i == nsb.len() {
            assert(body[i] == 58);
        } else {
            assert(body[i] == valb[i - nsb.len() - 1]);
        }
    }
    lemma_ascii_valid_utf8(body);
    let s = decode_utf8(body);
    vstd::utf8::decode_utf8_encode_utf8(body);
    lemma_string_round_trip_on_bytes(data, pos, body, s);
    // The first colon is exactly the separator: neither character set
    // admits one.
    assert forall|j: int| 0 <= j < nsb.len() implies #[trigger] body[j] != 58 by {
        assert(body[j] == nsb[j]);
        assert(is_namespace_byte(nsb[j]));
    }
    lemma_first_colon_found(body, 0, nsb.len() as int);
    assert(body.subrange(0, nsb.len() as int) =~= nsb);
    assert(body.subrange(nsb.len() as int + 1, body.len() as int) =~= valb);
    encode_utf8_decode_utf8(id.namespace);
    encode_utf8_decode_utf8(id.value);
}

/// Helper: a wire string whose body is `bytes` parses to `decode_utf8(bytes)`.
proof fn lemma_string_round_trip_on_bytes(data: Seq<u8>, pos: int, body: Seq<u8>, s: Seq<char>)
    requires
        0 <= pos,
        valid_utf8(body),
        s == decode_utf8(body),
        encode_utf8(s) == body,
        body.len() <= 32767,
        pos + crate::codec::varint_encode(body.len() as u32).len() + body.len() <= data.len(),
        data.subrange(pos, pos + crate::codec::varint_encode(body.len() as u32).len()
            + body.len()) == crate::codec::varint_encode(body.len() as u32) + body,
    ensures
        parse_string(data, pos) == Ok::<(Seq<char>, int), DecodeError>((
            s,
            pos + crate::codec::varint_encode(body.len() as u32).len() + body.len(),
        )),
{
    assert(crate::codec::string_encoding(s) == crate::codec::varint_encode(body.len() as u32)
        + body);
    lemma_string_round_trip(data, pos, s);
}

} // verus!
