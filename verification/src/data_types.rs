//! Wire data types: the two serialization capabilities and the simple
//! composite values carried by packets.
use vstd::prelude::*;

use crate::codec::{
    bool_bytes, i16_bytes, i32_bytes, i64_bytes, parse_bool, parse_string, parse_u128,
    string_encoding, u128_bytes, u16_bytes, varint_encode, write_bool, write_i16, write_i32,
    write_i64, write_string, write_u16, write_u8, write_uuid, write_varint, DecodeError,
};

verus! {

use vstd::utf8::encode_utf8;

/// Capability to serialize a value onto a byte buffer.
///
/// `encoded` is the exact byte sequence the value stands for on the wire;
/// `writable` holds when the value's lengths fit the wire's limits.
pub trait PacketWrite {
    /// The wire bytes of this value.
    spec fn encoded(&self) -> Seq<u8>;

    /// Whether this value can be serialized (its lengths fit the wire).
    spec fn writable(&self) -> bool;

    /// Appends the wire bytes of this value.
    fn write_to(&self, buf: &mut Vec<u8>)
        requires
            self.writable(),
        ensures
            final(buf)@ == old(buf)@ + self.encoded(),
    ;
}

/// Capability to decode a value from a frame body.
///
/// `parse` is the exact specification of the decode: the value's view and
/// the offset just past its fields, or the error the bytes force.
pub trait Packet: Sized + View {
    /// The exact parse of this packet's fields at `pos`.
    spec fn parse(data: Seq<u8>, pos: int) -> Result<(Self::V, int), DecodeError>;

    /// Structural facts that hold of any decoded value.
    spec fn wf(&self) -> bool;

    /// Decodes this packet's fields from `data` at `pos`.
    fn decode(data: &[u8], pos: usize) -> (r: Result<(Self, usize), DecodeError>)
        requires
            pos <= data@.len(),
        ensures
            match r {
                Ok((p, end)) => {
                    &&& Self::parse(data@, pos as int) == Ok::<(Self::V, int), DecodeError>((p@, end as int))
                    &&& pos <= end <= data@.len()
                    &&& p.wf()
                },
                Err(e) => Self::parse(data@, pos as int) == Err::<(Self::V, int), DecodeError>(e),
            },
    ;
}

// ---------------------------------------------------------------------------
// Simple wrappers.
// ---------------------------------------------------------------------------

/// A 32-bit value carried in VarInt form.
#[derive(Debug, Clone, Copy, PartialEq, Eq, Structural)]
pub struct VarInt(pub i32);

impl PacketWrite for VarInt {
    open spec fn encoded(&self) -> Seq<u8> {
        varint_encode(self.0 as u32)
    }

    open spec fn writable(&self) -> bool {
        true
    }

    fn write_to(&self, buf: &mut Vec<u8>) {
        write_varint(self.0, buf);
    }
}

/// A signed byte field.
#[derive(Debug, Clone, Copy, PartialEq, Eq, Structural)]
pub struct Byte(pub i8);

impl PacketWrite for Byte {
    open spec fn encoded(&self) -> Seq<u8> {
        seq![self.0 as u8]
    }

    open spec fn writable(&self) -> bool {
        true
    }

    fn write_to(&self, buf: &mut Vec<u8>) {
        write_u8(self.0 as u8, buf);
    }
}

/// An unsigned byte field.
#[derive(Debug, Clone, Copy, PartialEq, Eq, Structural)]
pub struct UnsignedByte(pub u8);

impl PacketWrite for UnsignedByte {
    open spec fn encoded(&self) -> Seq<u8> {
        seq![self.0]
    }

    open spec fn writable(&self) -> bool {
        true
    }

    fn write_to(&self, buf: &mut Vec<u8>) {
        write_u8(self.0, buf);
    }
}

/// Raw bytes written as-is, with no length prefix of their own.
#[derive(Debug, Clone)]
pub struct RawBytes(pub Vec<u8>);

impl View for RawBytes {
    type V = Seq<u8>;

    open spec fn view(&self) -> Seq<u8> {
        self.0@
    }
}

/// Parse of a raw tail: everything from `pos` to the end of the input.
pub open spec fn parse_raw(data: Seq<u8>, pos: int) -> Result<(Seq<u8>, int), DecodeError> {
    Ok((data.subrange(pos, data.len() as int), data.len() as int))
}

impl PacketWrite for RawBytes {
    open spec fn encoded(&self) -> Seq<u8> {
        self.0@
    }

    open spec fn writable(&self) -> bool {
        true
    }

    fn write_to(&self, buf: &mut Vec<u8>) {
        crate::codec::push_bytes(buf, self.0.as_slice());
    }
}

impl Packet for RawBytes {
    open spec fn parse(data: Seq<u8>, pos: int) -> Result<(Seq<u8>, int), DecodeError> {
        parse_raw(data, pos)
    }

    open spec fn wf(&self) -> bool {
        true
    }

    fn decode(data: &[u8], pos: usize) -> (r: Result<(Self, usize), DecodeError>) {
        let tail = vstd::slice::slice_subrange(data, pos, data.len());
        Ok((RawBytes(vstd::slice::slice_to_vec(tail)), data.len()))
    }
}

// ---------------------------------------------------------------------------
// Wire encodings of the built-in field types.
// ---------------------------------------------------------------------------

impl PacketWrite for bool {
    open spec fn encoded(&self) -> Seq<u8> {
        bool_bytes(*self)
    }

    open spec fn writable(&self) -> bool {
        true
    }

    fn write_to(&self, buf: &mut Vec<u8>) {
        write_bool(*self, buf);
    }
}

impl PacketWrite for u16 {
    open spec fn encoded(&self) -> Seq<u8> {
        u16_bytes(*self)
    }

    open spec fn writable(&self) -> bool {
        true
    }

    fn write_to(&self, buf: &mut Vec<u8>) {
        write_u16(*self, buf);
    }
}

impl PacketWrite for i16 {
    open spec fn encoded(&self) -> Seq<u8> {
        i16_bytes(*self)
    }

    open spec fn writable(&self) -> bool {
        true
    }

    fn write_to(&self, buf: &mut Vec<u8>) {
        write_i16(*self, buf);
    }
}

impl PacketWrite for i32 {
    open spec fn encoded(&self) -> Seq<u8> {
        i32_bytes(*self)
    }

    open spec fn writable(&self) -> bool {
        true
    }

    fn write_to(&self, buf: &mut Vec<u8>) {
        write_i32(*self, buf);
    }
}

impl PacketWrite for i64 {
    open spec fn encoded(&self) -> Seq<u8> {
        i64_bytes(*self)
    }

    open spec fn writable(&self) -> bool {
        true
    }

    fn write_to(&self, buf: &mut Vec<u8>) {
        write_i64(*self, buf);
    }
}

impl PacketWrite for u128 {
    open spec fn encoded(&self) -> Seq<u8> {
        u128_bytes(*self)
    }

    open spec fn writable(&self) -> bool {
        true
    }

    fn write_to(&self, buf: &mut Vec<u8>) {
        write_uuid(*self, buf);
    }
}

impl PacketWrite for String {
    open spec fn encoded(&self) -> Seq<u8> {
        string_encoding(self@)
    }

    open spec fn writable(&self) -> bool {
        encode_utf8(self@).len() <= 0x7fff_ffff
    }

    fn write_to(&self, buf: &mut Vec<u8>) {
        write_string(self.as_str(), buf);
    }
}

} // verus!

verus! {

use crate::codec::{parse_varint, read_string, read_uuid};

// ---------------------------------------------------------------------------
// Length-prefixed arrays: a VarInt element count, then the elements.
// ---------------------------------------------------------------------------

/// The concatenated wire bytes of a sequence of values.
pub open spec fn array_body<T: PacketWrite>(s: Seq<T>) -> Seq<u8>
    decreases s.len(),
{
    if s.len() == 0 {
        Seq::empty()
    } else {
        array_body(s.drop_last()) + s.last().encoded()
    }
}

/// The wire bytes of a length-prefixed array.
pub open spec fn prefixed_array_bytes<T: PacketWrite>(s: Seq<T>) -> Seq<u8> {
    varint_encode(s.len() as u32) + array_body(s)
}

/// Appends a VarInt element count and then each element in order.
pub fn write_prefixed_array<T: PacketWrite>(items: &Vec<T>, buf: &mut Vec<u8>)
    requires
        items@.len() <= 0x7fff_ffff,
        forall|i: int| 0 <= i < items@.len() ==> (#[trigger] items@[i]).writable(),
    ensures
        final(buf)@ == old(buf)@ + prefixed_array_bytes(items@),
{
    let n = items.len();
    write_varint(n as i32, buf);
    proof {
        assert((n as u32) == (n as i32) as u32) by (bit_vector)
            requires n <= 0x7fff_ffff;
    }
    let mut i: usize = 0;
    proof {
        assert(array_body(items@.subrange(0, 0)) == Seq::<u8>::empty());
        assert(buf@ + array_body(items@.subrange(0, 0)) =~= buf@);
    }
    while i < n
        invariant
            i <= n,
            n == items@.len(),
            forall|k: int| 0 <= k < items@.len() ==> (#[trigger] items@[k]).writable(),
            buf@ == old(buf)@ + varint_encode(items@.len() as u32) + array_body(
                items@.subrange(0, i as int)),
        decreases n - i,
    {
        proof {
            let pre = items@.subrange(0, i as int);
            let post = items@.subrange(0, i + 1);
            assert(post.drop_last() =~= pre);
            assert(post.last() == items@[i as int]);
        }
        items[i].write_to(buf);
        i = i + 1;
    }
    proof {
        assert(items@.subrange(0, items@.len() as int) =~= items@);
        assert(old(buf)@ + varint_encode(items@.len() as u32) + array_body(items@)
            =~= old(buf)@ + prefixed_array_bytes(items@));
    }
}

// ---------------------------------------------------------------------------
// KnownPack: three strings naming a resource pack.
// ---------------------------------------------------------------------------

/// Mathematical value of a known pack.
pub ghost struct SpecKnownPack {
    /// The pack's namespace characters.
    pub namespace: Seq<char>,
    /// The pack's id characters.
    pub id: Seq<char>,
    /// The pack's version characters.
    pub version: Seq<char>,
}

/// A resource pack announcement: namespace, id, and version strings.
#[derive(Debug, Clone)]
pub struct KnownPack {
    /// The pack's namespace.
    pub namespace: String,
    /// The pack's id.
    pub id: String,
    /// The pack's version.
    pub version: String,
}

impl View for KnownPack {
    type V = SpecKnownPack;

    open spec fn view(&self) -> SpecKnownPack {
        SpecKnownPack { namespace: self.namespace@, id: self.id@, version: self.version@ }
    }
}

/// The wire bytes of a known pack: its three strings in order.
pub open spec fn known_pack_bytes(p: SpecKnownPack) -> Seq<u8> {
    string_encoding(p.namespace) + string_encoding(p.id) + string_encoding(p.version)
}

/// Parse of a known pack at `pos`: three strings in order.
pub open spec fn parse_known_pack(data: Seq<u8>, pos: int) -> Result<(SpecKnownPack, int), DecodeError> {
    match parse_string(data, pos) {
        Err(e) => Err(e),
        Ok((namespace, p1)) => match parse_string(data, p1) {
            Err(e) => Err(e),
            Ok((id, p2)) => match parse_string(data, p2) {
                Err(e) => Err(e),
                Ok((version, p3)) => Ok((SpecKnownPack { namespace, id, version }, p3)),
            },
        },
    }
}

impl Packet for KnownPack {
    open spec fn parse(data: Seq<u8>, pos: int) -> Result<(SpecKnownPack, int), DecodeError> {
        parse_known_pack(data, pos)
    }

    open spec fn wf(&self) -> bool {
        encode_utf8(self.namespace@).len() <= 32767 && encode_utf8(self.id@).len() <= 32767
            && encode_utf8(self.version@).len() <= 32767
    }

    fn decode(data: &[u8], pos: usize) -> (r: Result<(Self, usize), DecodeError>) {
        let (namespace, p1) = match read_string(data, pos) {
            Ok(x) => x,
            Err(e) => {
                return Err(e);
            }
        };
        let (id, p2) = match read_string(data, p1) {
            Ok(x) => x,
            Err(e) => {
                return Err(e);
            }
        };
        let (version, p3) = match read_string(data, p2) {
            Ok(x) => x,
            Err(e) => {
                return Err(e);
            }
        };
        Ok((KnownPack { namespace, id, version }, p3))
    }
}

impl PacketWrite for KnownPack {
    open spec fn encoded(&self) -> Seq<u8> {
        known_pack_bytes(self@)
    }

    open spec fn writable(&self) -> bool {
        encode_utf8(self.namespace@).len() <= 0x7fff_ffff && encode_utf8(self.id@).len()
            <= 0x7fff_ffff && encode_utf8(self.version@).len() <= 0x7fff_ffff
    }

    fn write_to(&self, buf: &mut Vec<u8>) {
        write_string(self.namespace.as_str(), buf);
        write_string(self.id.as_str(), buf);
        write_string(self.version.as_str(), buf);
        proof {
            assert(buf@ =~= old(buf)@ + known_pack_bytes(self@));
        }
    }
}

/// Parse of `count` known packs in order.
#[verifier::opaque]
pub open spec fn parse_known_pack_items(data: Seq<u8>, pos: int, count: nat) -> Result<
    (Seq<SpecKnownPack>, int),
    DecodeError,
>
    decreases count,
{
    if count == 0 {
        Ok((Seq::empty(), pos))
    } else {
        match parse_known_pack(data, pos) {
            Err(e) => Err(e),
            Ok((p, p1)) => match parse_known_pack_items(data, p1, (count - 1) as nat) {
                Err(e) => Err(e),
                Ok((rest, end)) => Ok((seq![p] + rest, end)),
            },
        }
    }
}

/// Unfolds the parse of zero known packs.
pub proof fn lemma_known_pack_items_zero(data: Seq<u8>, pos: int)
    ensures
        parse_known_pack_items(data, pos, 0) == Ok::<(Seq<SpecKnownPack>, int), DecodeError>((
            Seq::empty(), pos)),
{
    reveal(parse_known_pack_items);
}

/// Unfolds the parse of `count` known packs by one element.
pub proof fn lemma_known_pack_items_step(data: Seq<u8>, pos: int, count: nat)
    requires
        count > 0,
    ensures
        parse_known_pack_items(data, pos, count) == (match parse_known_pack(data, pos) {
            Err(e) => Err::<(Seq<SpecKnownPack>, int), DecodeError>(e),
            Ok((p, p1)) => match parse_known_pack_items(data, p1, (count - 1) as nat) {
                Err(e) => Err::<(Seq<SpecKnownPack>, int), DecodeError>(e),
                Ok((rest, end)) => Ok::<(Seq<SpecKnownPack>, int), DecodeError>((seq![p] + rest, end)),
            },
        }),
{
    reveal(parse_known_pack_items);
}

/// Parse of a length-prefixed array of known packs.  A negative declared
/// count reads as an empty array.
pub open spec fn parse_known_packs(data: Seq<u8>, pos: int) -> Result<(Seq<SpecKnownPack>, int), DecodeError> {
    match parse_varint(data, pos) {
        Err(e) => Err(e),
        Ok((count_u, p)) => {
            let count = count_u as i32;
            if count <= 0 {
                Ok((Seq::empty(), p))
            } else {
                parse_known_pack_items(data, p, count as nat)
            }
        }
    }
}

/// The views of a vector of known packs.
pub open spec fn known_pack_views(s: Seq<KnownPack>) -> Seq<SpecKnownPack> {
    s.map_values(|p: KnownPack| p@)
}

/// Reads a length-prefixed array of known packs.
#[verifier::spinoff_prover]
#[verifier::rlimit(100)]
pub fn read_known_packs(data: &[u8], pos: usize) -> (r: Result<(Vec<KnownPack>, usize), DecodeError>)
    requires
        pos <= data@.len(),
    ensures
        match r {
            Ok((items, end)) => {
                &&& parse_known_packs(data@, pos as int) == Ok::<(Seq<SpecKnownPack>, int), DecodeError>(
                    (known_pack_views(items@), end as int))
                &&& pos <= end <= data@.len()
            },
            Err(e) => parse_known_packs(data@, pos as int) == Err::<(Seq<SpecKnownPack>, int), DecodeError>(e),
        },
{
    let (count_v, p0) = match crate::codec::read_varint(data, pos) {
        Ok(x) => x,
        Err(e) => {
            return Err(e);
        }
    };
    proof {
        assert((count_v as u32) as i32 == count_v) by (bit_vector);
    }
    let mut items: Vec<KnownPack> = Vec::new();
    if count_v <= 0 {
        proof {
            assert(known_pack_views(items@) =~= Seq::<SpecKnownPack>::empty());
        }
        return Ok((items, p0));
    }
    let count = count_v as usize;
    let mut i: usize = 0;
    let mut cur: usize = p0;
    let ghost mut vs: Seq<SpecKnownPack> = Seq::empty();
    proof {
        assert(known_pack_views(items@) =~= vs);
    }
    while i < count
        invariant
            i <= count,
            pos < p0 <= cur,
            cur <= data@.len(),
            pos <= data@.len(),
            count_v > 0,
            count == count_v as usize,
            parse_varint(data@, pos as int) == Ok::<(u32, int), DecodeError>((count_v as u32, p0 as int)),
            (count_v as u32) as i32 == count_v,
            vs == known_pack_views(items@),
            parse_known_pack_items(data@, p0 as int, count as nat) == (match parse_known_pack_items(
                data@, cur as int, (count - i) as nat) {
                Ok((rest, end)) => Ok::<(Seq<SpecKnownPack>, int), DecodeError>((vs + rest, end)),
                Err(e) => Err::<(Seq<SpecKnownPack>, int), DecodeError>(e),
            }),
        decreases count - i,
    {
        let (pack, next) = match KnownPack::decode(data, cur) {
            Ok(x) => x,
            Err(e) => {
                proof {
                    lemma_known_pack_items_step(data@, cur as int, (count - i) as nat);
                }
                return Err(e);
            }
        };
        proof {
            lemma_known_pack_items_step(data@, cur as int, (count - i) as nat);
            let rem = parse_known_pack_items(data@, next as int, (count - i - 1) as nat);
            if rem is Ok {
                let rest2 = rem->Ok_0.0;
                assert(vs + (seq![pack@] + rest2) =~= (vs + seq![pack@]) + rest2);
            }
        }
        let ghost prev_items = items@;
        items.push(pack);
        proof {
            assert(known_pack_views(items@) =~= known_pack_views(prev_items) + seq![pack@]);
            vs = vs + seq![pack@];
        }
        cur = next;
        i = i + 1;
    }
    proof {
        lemma_known_pack_items_zero(data@, cur as int);
        assert(vs + Seq::<SpecKnownPack>::empty() =~= vs);
    }
    Ok((items, cur))
}

} // verus!

verus! {

// ---------------------------------------------------------------------------
// Game profiles: a player's identity and its signed properties.
// ---------------------------------------------------------------------------

/// The wire bytes of an optional string: a presence byte, then the string.
pub open spec fn opt_string_bytes(o: Option<Seq<char>>) -> Seq<u8> {
    match o {
        Option::None => seq![0u8],
        Option::Some(s) => seq![1u8] + string_encoding(s),
    }
}

/// Parse of an optional string: a boolean presence byte, then the string if
/// the byte read true.
pub open spec fn parse_opt_string(data: Seq<u8>, pos: int) -> Result<(Option<Seq<char>>, int), DecodeError> {
    match parse_bool(data, pos) {
        Err(e) => Err(e),
        Ok((present, p)) => {
            if present {
                match parse_string(data, p) {
                    Err(e) => Err(e),
                    Ok((s, end)) => Ok((Option::Some(s), end)),
                }
            } else {
                Ok((Option::None, p))
            }
        }
    }
}

/// Mathematical value of a profile property.
pub ghost struct SpecGameProfileProperty {
    /// The property's name characters.
    pub name: Seq<char>,
    /// The property's value characters.
    pub value: Seq<char>,
    /// The property's signature characters, if signed.
    pub signature: Option<Seq<char>>,
}

/// One signed property of a game profile.
#[derive(Debug, Clone)]
pub struct GameProfileProperty {
    /// The property's name.
    pub name: String,
    /// The property's value.
    pub value: String,
    /// The property's signature, if signed.
    pub signature: Option<String>,
}

impl View for GameProfileProperty {
    type V = SpecGameProfileProperty;

    open spec fn view(&self) -> SpecGameProfileProperty {
        SpecGameProfileProperty {
            name: self.name@,
            value: self.value@,
            signature: match self.signature {
                Option::None => Option::None,
                Option::Some(ref s) => Option::Some(s@),
            },
        }
    }
}

/// The wire bytes of a profile property: name, value, optional signature.
pub open spec fn profile_property_bytes(p: SpecGameProfileProperty) -> Seq<u8> {
    string_encoding(p.name) + string_encoding(p.value) + opt_string_bytes(p.signature)
}

/// Parse of a profile property at `pos`.
pub open spec fn parse_profile_property(data: Seq<u8>, pos: int) -> Result<
    (SpecGameProfileProperty, int),
    DecodeError,
> {
    match parse_string(data, pos) {
        Err(e) => Err(e),
        Ok((name, p1)) => match parse_string(data, p1) {
            Err(e) => Err(e),
            Ok((value, p2)) => match parse_opt_string(data, p2) {
                Err(e) => Err(e),
                Ok((signature, p3)) => Ok((SpecGameProfileProperty { name, value, signature }, p3)),
            },
        },
    }
}

impl Packet for GameProfileProperty {
    open spec fn parse(data: Seq<u8>, pos: int) -> Result<(SpecGameProfileProperty, int), DecodeError> {
        parse_profile_property(data, pos)
    }

    open spec fn wf(&self) -> bool {
        encode_utf8(self.name@).len() <= 32767 && encode_utf8(self.value@).len() <= 32767
            && (self.signature matches Option::Some(ref s) ==> encode_utf8(s@).len() <= 32767)
    }

    fn decode(data: &[u8], pos: usize) -> (r: Result<(Self, usize), DecodeError>) {
        let (name, p1) = match read_string(data, pos) {
            Ok(x) => x,
            Err(e) => {
                return Err(e);
            }
        };
        let (value, p2) = match read_string(data, p1) {
            Ok(x) => x,
            Err(e) => {
                return Err(e);
            }
        };
        let (present, p3) = match crate::codec::read_bool(data, p2) {
            Ok(x) => x,
            Err(e) => {
                return Err(e);
            }
        };
        if present {
            let (sig, p4) = match read_string(data, p3) {
                Ok(x) => x,
                Err(e) => {
                    return Err(e);
                }
            };
            Ok((GameProfileProperty { name, value, signature: Some(sig) }, p4))
        } else {
            Ok((GameProfileProperty { name, value, signature: None }, p3))
        }
    }
}

impl PacketWrite for GameProfileProperty {
    open spec fn encoded(&self) -> Seq<u8> {
        profile_property_bytes(self@)
    }

    open spec fn writable(&self) -> bool {
        encode_utf8(self.name@).len() <= 0x7fff_ffff && encode_utf8(self.value@).len()
            <= 0x7fff_ffff && (self.signature matches Option::Some(ref s) ==> encode_utf8(s@).len()
            <= 0x7fff_ffff)
    }

    fn write_to(&self, buf: &mut Vec<u8>) {
        write_string(self.name.as_str(), buf);
        write_string(self.value.as_str(), buf);
        match &self.signature {
            Some(s) => {
                write_bool(true, buf);
                write_string(s.as_str(), buf);
            }
            None => {
                write_bool(false, buf);
            }
        }
        proof {
            assert(buf@ =~= old(buf)@ + profile_property_bytes(self@));
        }
    }
}

/// Mathematical value of a game profile.
pub ghost struct SpecGameProfile {
    /// The player's UUID as a 128-bit value.
    pub uuid: u128,
    /// The player's name characters.
    pub username: Seq<char>,
    /// The profile's properties in order.
    pub properties: Seq<SpecGameProfileProperty>,
}

/// A player's identity: UUID, name, and signed properties.
#[derive(Debug, Clone)]
pub struct GameProfile {
    /// The player's UUID as a 128-bit value.
    pub uuid: u128,
    /// The player's name.
    pub username: String,
    /// The profile's properties in order.
    pub properties: Vec<GameProfileProperty>,
}

/// The views of a vector of profile properties.
pub open spec fn profile_property_views(s: Seq<GameProfileProperty>) -> Seq<SpecGameProfileProperty> {
    s.map_values(|p: GameProfileProperty| p@)
}

impl View for GameProfile {
    type V = SpecGameProfile;

    open spec fn view(&self) -> SpecGameProfile {
        SpecGameProfile {
            uuid: self.uuid,
            username: self.username@,
            properties: profile_property_views(self.properties@),
        }
    }
}

/// The wire bytes of a game profile: UUID, name, then the property array.
pub open spec fn game_profile_bytes(uuid: u128, username: Seq<char>, props: Seq<GameProfileProperty>) -> Seq<u8> {
    u128_bytes(uuid) + string_encoding(username) + prefixed_array_bytes(props)
}

/// Parse of `count` profile properties in order.
#[verifier::opaque]
pub open spec fn parse_profile_property_items(data: Seq<u8>, pos: int, count: nat) -> Result<
    (Seq<SpecGameProfileProperty>, int),
    DecodeError,
>
    decreases count,
{
    if count == 0 {
        Ok((Seq::empty(), pos))
    } else {
        match parse_profile_property(data, pos) {
            Err(e) => Err(e),
            Ok((p, p1)) => match parse_profile_property_items(data, p1, (count - 1) as nat) {
                Err(e) => Err(e),
                Ok((rest, end)) => Ok((seq![p] + rest, end)),
            },
        }
    }
}

/// Unfolds the parse of zero profile properties.
pub proof fn lemma_profile_property_items_zero(data: Seq<u8>, pos: int)
    ensures
        parse_profile_property_items(data, pos, 0) == Ok::<(Seq<SpecGameProfileProperty>, int), DecodeError>((
            Seq::empty(), pos)),
{
    reveal(parse_profile_property_items);
}

/// Unfolds the parse of `count` profile properties by one element.
pub proof fn lemma_profile_property_items_step(data: Seq<u8>, pos: int, count: nat)
    requires
        count > 0,
    ensures
        parse_profile_property_items(data, pos, count) == (match parse_profile_property(data, pos) {
            Err(e) => Err::<(Seq<SpecGameProfileProperty>, int), DecodeError>(e),
            Ok((p, p1)) => match parse_profile_property_items(data, p1, (count - 1) as nat) {
                Err(e) => Err::<(Seq<SpecGameProfileProperty>, int), DecodeError>(e),
                Ok((rest, end)) => Ok::<(Seq<SpecGameProfileProperty>, int), DecodeError>((seq![p] + rest, end)),
            },
        }),
{
    reveal(parse_profile_property_items);
}

/// Parse of a game profile at `pos`.  A negative property count reads as an
/// empty property list.
pub open spec fn parse_game_profile(data: Seq<u8>, pos: int) -> Result<(SpecGameProfile, int), DecodeError> {
    match parse_u128(data, pos) {
        Err(e) => Err(e),
        Ok((uuid, p1)) => match parse_string(data, p1) {
            Err(e) => Err(e),
            Ok((username, p2)) => match parse_varint(data, p2) {
                Err(e) => Err(e),
                Ok((count_u, p3)) => {
                    let count = count_u as i32;
                    let items = if count <= 0 {
                        Ok((Seq::<SpecGameProfileProperty>::empty(), p3))
                    } else {
                        parse_profile_property_items(data, p3, count as nat)
                    };
                    match items {
                        Err(e) => Err(e),
                        Ok((properties, end)) => Ok((SpecGameProfile { uuid, username, properties }, end)),
                    }
                },
            },
        },
    }
}

impl Packet for GameProfile {
    open spec fn parse(data: Seq<u8>, pos: int) -> Result<(SpecGameProfile, int), DecodeError> {
        parse_game_profile(data, pos)
    }

    open spec fn wf(&self) -> bool {
        encode_utf8(self.username@).len() <= 32767 && (forall|i: int|
            0 <= i < self.properties@.len() ==> (#[trigger] self.properties@[i]).wf())
    }

    #[verifier::spinoff_prover]
    #[verifier::rlimit(100)]
    fn decode(data: &[u8], pos: usize) -> (r: Result<(Self, usize), DecodeError>) {
        let (uuid, p1) = match read_uuid(data, pos) {
            Ok(x) => x,
            Err(e) => {
                return Err(e);
            }
        };
        let (username, p2) = match read_string(data, p1) {
            Ok(x) => x,
            Err(e) => {
                return Err(e);
            }
        };
        let (count_v, p3) = match crate::codec::read_varint(data, p2) {
            Ok(x) => x,
            Err(e) => {
                return Err(e);
            }
        };
        proof {
            assert((count_v as u32) as i32 == count_v) by (bit_vector);
        }
        let mut properties: Vec<GameProfileProperty> = Vec::new();
        if count_v <= 0 {
            proof {
                assert(profile_property_views(properties@) =~= Seq::<SpecGameProfileProperty>::empty());
            }
            return Ok((GameProfile { uuid, username, properties }, p3));
        }
        let count = count_v as usize;
        let mut i: usize = 0;
        let mut cur: usize = p3;
        let ghost mut vs: Seq<SpecGameProfileProperty> = Seq::empty();
        proof {
            assert(profile_property_views(properties@) =~= vs);
        }
        while i < count
            invariant
                i <= count,
                pos <= data@.len(),
                p3 <= cur,
                cur <= data@.len(),
                count_v > 0,
                count == count_v as usize,
                parse_u128(data@, pos as int) == Ok::<(u128, int), DecodeError>((uuid, p1 as int)),
                parse_string(data@, p1 as int) == Ok::<(Seq<char>, int), DecodeError>((username@, p2 as int)),
                parse_varint(data@, p2 as int) == Ok::<(u32, int), DecodeError>((count_v as u32, p3 as int)),
                (count_v as u32) as i32 == count_v,
                parse_profile_property_items(data@, p3 as int, count as nat) == (
                match parse_profile_property_items(data@, cur as int, (count - i) as nat) {
                    Ok((rest, end)) => Ok::<(Seq<SpecGameProfileProperty>, int), DecodeError>((vs + rest, end)),
                    Err(e) => Err::<(Seq<SpecGameProfileProperty>, int), DecodeError>(e),
                }),
                vs == profile_property_views(properties@),
                forall|k: int| 0 <= k < properties@.len() ==> (#[trigger] properties@[k]).wf(),
            decreases count - i,
        {
            let (prop, next) = match GameProfileProperty::decode(data, cur) {
                Ok(x) => x,
                Err(e) => {
                    proof {
                        lemma_profile_property_items_step(data@, cur as int, (count - i) as nat);
                    }
                    return Err(e);
                }
            };
            proof {
                lemma_profile_property_items_step(data@, cur as int, (count - i) as nat);
                let rem = parse_profile_property_items(data@, next as int, (count - i - 1) as nat);
                if rem is Ok {
                    let rest2 = rem->Ok_0.0;
                    assert(vs + (seq![prop@] + rest2) =~= (vs + seq![prop@]) + rest2);
                }
            }
            let ghost prev_props = properties@;
            properties.push(prop);
            proof {
                assert(profile_property_views(properties@) =~= profile_property_views(prev_props)
                    + seq![prop@]);
                vs = vs + seq![prop@];
            }
            cur = next;
            i = i + 1;
        }
        proof {
            lemma_profile_property_items_zero(data@, cur as int);
            assert(vs + Seq::<SpecGameProfileProperty>::empty() =~= vs);
        }
        Ok((GameProfile { uuid, username, properties }, cur))
    }
}

impl PacketWrite for GameProfile {
    open spec fn encoded(&self) -> Seq<u8> {
        game_profile_bytes(self.uuid, self.username@, self.properties@)
    }

    open spec fn writable(&self) -> bool {
        encode_utf8(self.username@).len() <= 0x7fff_ffff && self.properties@.len() <= 0x7fff_ffff
            && (forall|i: int| 0 <= i < self.properties@.len() ==> (#[trigger] self.properties@[i]).writable())
    }

    fn write_to(&self, buf: &mut Vec<u8>) {
        write_uuid(self.uuid, buf);
        write_string(self.username.as_str(), buf);
        write_prefixed_array(&self.properties, buf);
        proof {
            assert(buf@ =~= old(buf)@ + game_profile_bytes(self.uuid, self.username@, self.properties@));
        }
    }
}

} // verus!

verus! {

impl<T: PacketWrite> PacketWrite for Option<T> {
    open spec fn encoded(&self) -> Seq<u8> {
        match self {
            Option::None => seq![0u8],
            Option::Some(v) => seq![1u8] + v.encoded(),
        }
    }

    open spec fn writable(&self) -> bool {
        match self {
            Option::None => true,
            Option::Some(v) => v.writable(),
        }
    }

    fn write_to(&self, buf: &mut Vec<u8>) {
        match self {
            Option::None => {
                write_bool(false, buf);
            }
            Option::Some(v) => {
                write_bool(true, buf);
                v.write_to(buf);
                proof {
                    assert(buf@ =~= old(buf)@ + self.encoded());
                }
            }
        }
    }
}

} // verus!

verus! {

use crate::codec::{lemma_bool_round_trip, lemma_split_concat, lemma_string_round_trip};

/// Round trip: an optional-string encoding placed at `pos` parses back to
/// the same value, consuming exactly the encoding.
pub proof fn lemma_opt_string_round_trip(data: Seq<u8>, pos: int, o: Option<Seq<char>>)
    requires
        0 <= pos,
        o matches Option::Some(s) ==> encode_utf8(s).len() <= 32767,
        pos + opt_string_bytes(o).len() <= data.len(),
        data.subrange(pos, pos + opt_string_bytes(o).len() as int) == opt_string_bytes(o),
    ensures
        parse_opt_string(data, pos) == Ok::<(Option<Seq<char>>, int), DecodeError>((
            o,
            pos + opt_string_bytes(o).len(),
        )),
{
    match o {
        Option::None => {
            lemma_bool_round_trip(data, pos, false);
        }
        Option::Some(s) => {
            lemma_split_concat(data, pos, seq![1u8], string_encoding(s));
            lemma_bool_round_trip(data, pos, true);
            lemma_string_round_trip(data, pos + 1, s);
        }
    }
}

/// Round trip: a known-pack encoding placed at `pos` parses back to the
/// same three strings, consuming exactly the encoding.
pub proof fn lemma_known_pack_round_trip(data: Seq<u8>, pos: int, p: SpecKnownPack)
    requires
        0 <= pos,
        encode_utf8(p.namespace).len() <= 32767,
        encode_utf8(p.id).len() <= 32767,
        encode_utf8(p.version).len() <= 32767,
        pos + known_pack_bytes(p).len() <= data.len(),
        data.subrange(pos, pos + known_pack_bytes(p).len() as int) == known_pack_bytes(p),
    ensures
        parse_known_pack(data, pos) == Ok::<(SpecKnownPack, int), DecodeError>((
            p,
            pos + known_pack_bytes(p).len(),
        )),
{
    let a = string_encoding(p.namespace);
    let b = string_encoding(p.id);
    let c = string_encoding(p.version);
    lemma_split_concat(data, pos, a + b, c);
    lemma_split_concat(data, pos, a, b);
    lemma_string_round_trip(data, pos, p.namespace);
    lemma_string_round_trip(data, pos + a.len(), p.id);
    lemma_string_round_trip(data, pos + a.len() + b.len(), p.version);
}

} // verus!
