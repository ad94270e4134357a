//! Byte-level codec for the primitive wire types.
//!
//! Every wire type has a spec-level encoding function (value to byte
//! sequence) and a spec-level parse function (byte sequence and offset to
//! value and next offset, or a `DecodeError`).  The executable readers and
//! writers are proved equal to those spec functions, and the round-trip
//! laws are proved about the spec functions themselves.
use vstd::prelude::*;

verus! {

/// Why a decode failed.
#[derive(Debug, Clone, Copy, PartialEq, Eq, Structural)]
pub enum DecodeError {
    /// A variable-length integer ran past its maximum width.
    VarIntTooLarge,
    /// The input ended before the value was complete.
    UnexpectedEof,
    /// A declared length was negative or above the allowed maximum.
    InvalidLength,
    /// String bytes were not valid UTF-8.
    InvalidUtf8,
    /// An identifier held a character outside its allowed set.
    InvalidIdentifier,
}

// ---------------------------------------------------------------------------
// VarInt: base-128 groups, low bits first, bit 7 of each byte set while more
// groups follow.  A 32-bit value takes at most 5 bytes.
// ---------------------------------------------------------------------------

/// The wire bytes of a 32-bit value in VarInt form.
pub open spec fn varint_encode(v: u32) -> Seq<u8>
    decreases v,
{
    if v < 128 {
        seq![v as u8]
    } else {
        seq![(v % 128 + 128) as u8] + varint_encode(v / 128)
    }
}

/// Parse of the VarInt group at byte `pos + idx`, given that the groups
/// before `idx` all had their continuation bit set.  The reader consumes a
/// sixth byte before it reports the value too large, so five continuation
/// bytes followed by input that ends is reported as an early end instead.
pub open spec fn parse_varint_at(data: Seq<u8>, pos: int, idx: nat) -> Result<(nat, int), DecodeError>
    decreases 5 - idx,
{
    if idx >= 5 {
        if pos + 5 < data.len() {
            Err(DecodeError::VarIntTooLarge)
        } else {
            Err(DecodeError::UnexpectedEof)
        }
    } else if pos + idx >= data.len() {
        Err(DecodeError::UnexpectedEof)
    } else {
        let b = data[pos + idx];
        if b < 128 {
            Ok((b as nat, pos + idx + 1))
        } else {
            match parse_varint_at(data, pos, idx + 1) {
                Ok((rest, end)) => Ok(((b - 128) as nat + 128 * rest, end)),
                Err(e) => Err(e),
            }
        }
    }
}

/// Parse of a VarInt at `pos`: the accumulated group value, reduced to 32
/// bits, and the offset just past the final group.
pub open spec fn parse_varint(data: Seq<u8>, pos: int) -> Result<(u32, int), DecodeError> {
    match parse_varint_at(data, pos, 0) {
        Ok((n, end)) => Ok(((n % 0x1_0000_0000) as u32, end)),
        Err(e) => Err(e),
    }
}

/// 128 raised to `n`; the place value of VarInt group `n`.
pub open spec fn pow128(n: nat) -> nat
    decreases n,
{
    if n == 0 {
        1
    } else {
        128 * pow128((n - 1) as nat)
    }
}

proof fn lemma_parse_varint_at_bound(data: Seq<u8>, pos: int, idx: nat)
    requires
        idx <= 5,
        parse_varint_at(data, pos, idx) is Ok,
    ensures
        parse_varint_at(data, pos, idx)->Ok_0.0 < pow128((5 - idx) as nat),
        pos + idx < parse_varint_at(data, pos, idx)->Ok_0.1 <= data.len(),
        parse_varint_at(data, pos, idx)->Ok_0.1 <= pos + 5,
    decreases 5 - idx,
{
    let b = data[pos + idx];
    if b < 128 {
        assert(pow128((5 - idx) as nat) >= 128) by {
            lemma_pow128_increases((5 - idx) as nat);
        }
    } else {
        lemma_parse_varint_at_bound(data, pos, idx + 1);
        let rest = parse_varint_at(data, pos, idx + 1)->Ok_0.0;
        assert((b - 128) as nat + 128 * rest < 128 * pow128((4 - idx) as nat)) by {
            assert(rest <= pow128((4 - idx) as nat) - 1);
            assert(128 * rest <= 128 * (pow128((4 - idx) as nat) - 1)) by (nonlinear_arith)
                requires rest <= pow128((4 - idx) as nat) - 1;
        }
        assert(pow128((5 - idx) as nat) == 128 * pow128((4 - idx) as nat));
    }
}

proof fn lemma_pow128_increases(n: nat)
    ensures
        n >= 1 ==> pow128(n) >= 128,
        pow128(n) >= 1,
    decreases n,
{
    if n >= 1 {
        lemma_pow128_increases((n - 1) as nat);
        assert(pow128(n) == 128 * pow128((n - 1) as nat));
        assert(128 * pow128((n - 1) as nat) >= 128) by (nonlinear_arith)
            requires pow128((n - 1) as nat) >= 1;
    }
}

/// Executable VarInt reader, one recursive step per group; mirrors
/// `parse_varint_at` exactly.
fn read_varint_at(data: &[u8], pos: usize, idx: usize) -> (r: Result<(u64, usize), DecodeError>)
    requires
        pos + idx <= data@.len(),
        idx <= 5,
    ensures
        match r {
            Ok((v, end)) => {
                &&& parse_varint_at(data@, pos as int, idx as nat) == Ok::<(nat, int), DecodeError>((v as nat, end as int))
                &&& v < 0x8_0000_0000
                &&& pos + idx < end <= data@.len()
            },
            Err(e) => parse_varint_at(data@, pos as int, idx as nat) == Err::<(nat, int), DecodeError>(e),
        },
    decreases 5 - idx,
{
    if idx >= 5 {
        if data.len() - pos > 5 {
            Err(DecodeError::VarIntTooLarge)
        } else {
            Err(DecodeError::UnexpectedEof)
        }
    } else if data.len() - pos <= idx {
        Err(DecodeError::UnexpectedEof)
    } else {
        let b = data[pos + idx];
        if b < 128 {
            Ok((b as u64, pos + idx + 1))
        } else {
            match read_varint_at(data, pos, idx + 1) {
                Ok((rest, end)) => {
                    proof {
                        lemma_parse_varint_at_bound(data@, pos as int, idx as nat + 1);
                        lemma_pow128_le((4 - idx) as nat, 4);
                        assert(pow128(4) == 0x1000_0000) by {
                            reveal_with_fuel(pow128, 5);
                        }
                    }
                    Ok(((b - 128) as u64 + 128 * rest, end))
                }
                Err(e) => Err(e),
            }
        }
    }
}

proof fn lemma_pow128_le(n: nat, m: nat)
    requires
        n <= m,
    ensures
        pow128(n) <= pow128(m),
    decreases m,
{
    if n < m && m > 0 {
        lemma_pow128_le(n, (m - 1) as nat);
        lemma_pow128_increases((m - 1) as nat);
    }
}

/// Reads one VarInt from `data` at `pos`.
pub fn read_varint(data: &[u8], pos: usize) -> (r: Result<(i32, usize), DecodeError>)
    requires
        pos <= data@.len(),
    ensures
        match r {
            Ok((v, end)) => {
                &&& parse_varint(data@, pos as int) == Ok::<(u32, int), DecodeError>((v as u32, end as int))
                &&& pos < end <= data@.len()
                &&& end <= pos + 5
            },
            Err(e) => parse_varint(data@, pos as int) == Err::<(u32, int), DecodeError>(e),
        },
{
    match read_varint_at(data, pos, 0) {
        Ok((n, end)) => {
            proof {
                lemma_parse_varint_at_bound(data@, pos as int, 0);
            }
            let low: u32 = (n % 0x1_0000_0000) as u32;
            let v: i32 = low as i32;
            proof {
                assert(low as i32 as u32 == low) by (bit_vector);
            }
            Ok((v, end))
        }
        Err(e) => Err(e),
    }
}

/// Appends the VarInt form of `val` (as its unsigned 32-bit pattern).
pub fn write_varint(val: i32, buf: &mut Vec<u8>)
    ensures
        final(buf)@ == old(buf)@ + varint_encode(val as u32),
{
    let ghost orig: Seq<u8> = buf@;
    let ghost origv: u32 = val as u32;
    let mut temp: u32 = val as u32;
    while temp >= 128
        invariant
            buf@ + varint_encode(temp) == orig + varint_encode(origv),
        decreases temp,
    {
        let b: u8 = (temp % 128 + 128) as u8;
        proof {
            assert(varint_encode(temp) == seq![b] + varint_encode(temp / 128));
            assert(buf@ + seq![b] + varint_encode(temp / 128) == buf@ + (seq![b] + varint_encode(temp / 128)));
        }
        buf.push(b);
        temp = temp / 128;
    }
    proof {
        assert(varint_encode(temp) == seq![temp as u8]);
        assert(buf@ + seq![temp as u8] == buf@ + varint_encode(temp));
    }
    buf.push(temp as u8);
}

/// Round trip: a VarInt encoding placed at `pos` parses back to the same
/// value, consuming exactly the encoding.
pub proof fn lemma_varint_round_trip(data: Seq<u8>, pos: int, v: u32)
    requires
        0 <= pos,
        pos + varint_encode(v).len() <= data.len(),
        data.subrange(pos, pos + varint_encode(v).len() as int) == varint_encode(v),
    ensures
        parse_varint(data, pos) == Ok::<(u32, int), DecodeError>((v, pos + varint_encode(v).len())),
{
    lemma_varint_encode_len(v);
    lemma_varint_round_trip_at(data, pos, 0, v);
    lemma_parse_varint_at_bound(data, pos, 0);
    assert(v as nat % 0x1_0000_0000 == v as nat);
}

/// The VarInt encoding of a 32-bit value takes between one and five bytes.
pub proof fn lemma_varint_encode_len(v: u32)
    ensures
        1 <= varint_encode(v).len() <= 5,
{
    lemma_varint_encode_nat_len(v);
    assert(pow128(5) == 0x8_0000_0000) by {
        reveal_with_fuel(pow128, 6);
    }
    lemma_varint_encode_len_rec(v as nat, 5);
}

proof fn lemma_varint_encode_len_rec(v: nat, depth: nat)
    requires
        v < pow128(depth),
        depth >= 1,
    ensures
        1 <= varint_encode_nat_len(v) <= depth,
    decreases depth,
{
    if v >= 128 {
        assert(pow128(depth) == 128 * pow128((depth - 1) as nat));
        assert(v / 128 < pow128((depth - 1) as nat)) by (nonlinear_arith)
            requires v < 128 * pow128((depth - 1) as nat);
        lemma_varint_encode_len_rec(v / 128, (depth - 1) as nat);
    }
}

/// Length of the VarInt encoding, stated over mathematical integers so the
/// induction above can run past the 32-bit range check.
pub open spec fn varint_encode_nat_len(v: nat) -> nat
    decreases v,
{
    if v < 128 {
        1
    } else {
        1 + varint_encode_nat_len(v / 128)
    }
}

proof fn lemma_varint_encode_nat_len(v: u32)
    ensures
        varint_encode(v).len() == varint_encode_nat_len(v as nat),
    decreases v,
{
    if v >= 128 {
        lemma_varint_encode_nat_len(v / 128);
    }
}

proof fn lemma_varint_round_trip_at(data: Seq<u8>, pos: int, idx: nat, v: u32)
    requires
        0 <= pos,
        idx + varint_encode(v).len() <= 5,
        pos + idx + varint_encode(v).len() <= data.len(),
        data.subrange(pos + idx, pos + idx + varint_encode(v).len() as int) == varint_encode(v),
    ensures
        parse_varint_at(data, pos, idx) == Ok::<(nat, int), DecodeError>((v as nat, pos + idx + varint_encode(v).len())),
    decreases v,
{
    let enc = varint_encode(v);
    assert(data[pos + idx] == enc[0]) by {
        assert(data.subrange(pos + idx, pos + idx + enc.len() as int)[0] == data[pos + idx]);
    }
    if v < 128 {
        assert(enc[0] == v as u8);
    } else {
        let rest = varint_encode(v / 128);
        assert(enc[0] == (v % 128 + 128) as u8);
        assert(data.subrange(pos + idx + 1, pos + idx + 1 + rest.len() as int) == rest) by {
            assert forall|i: int| 0 <= i < rest.len() implies
                data.subrange(pos + idx + 1, pos + idx + 1 + rest.len() as int)[i] == rest[i] by {
                assert(data.subrange(pos + idx, pos + idx + enc.len() as int)[i + 1] == enc[i + 1]);
            }
            assert(data.subrange(pos + idx + 1, pos + idx + 1 + rest.len() as int) =~= rest);
        }
        lemma_varint_round_trip_at(data, pos, idx + 1, v / 128);
        let b = data[pos + idx];
        assert(b == (v % 128 + 128) as u8);
        assert((b - 128) as nat + 128 * ((v / 128) as nat) == v as nat);
    }
}

} // verus!

verus! {

// ---------------------------------------------------------------------------
// Fixed-width big-endian integers, generic over the byte count.
// ---------------------------------------------------------------------------

/// The `n` big-endian bytes of `v`.
pub open spec fn be_bytes(v: nat, n: nat) -> Seq<u8>
    decreases n,
{
    if n == 0 {
        Seq::empty()
    } else {
        be_bytes(v / 256, (n - 1) as nat) + seq![(v % 256) as u8]
    }
}

/// The value of a big-endian byte sequence.
pub open spec fn be_value(s: Seq<u8>) -> nat
    decreases s.len(),
{
    if s.len() == 0 {
        0
    } else {
        256 * be_value(s.drop_last()) + s.last() as nat
    }
}

/// 256 raised to `n`; the place value of big-endian byte `n` from the end.
pub open spec fn pow256(n: nat) -> nat
    decreases n,
{
    if n == 0 {
        1
    } else {
        256 * pow256((n - 1) as nat)
    }
}

/// A value below `256^n` round-trips through its `n` big-endian bytes.
pub proof fn lemma_be_round_trip(v: nat, n: nat)
    requires
        v < pow256(n),
    ensures
        be_bytes(v, n).len() == n,
        be_value(be_bytes(v, n)) == v,
    decreases n,
{
    if n > 0 {
        assert(v / 256 < pow256((n - 1) as nat)) by (nonlinear_arith)
            requires v < 256 * pow256((n - 1) as nat);
        lemma_be_round_trip(v / 256, (n - 1) as nat);
        let s = be_bytes(v, n);
        assert(s.drop_last() == be_bytes(v / 256, (n - 1) as nat));
        assert(s.last() == (v % 256) as u8);
    }
}

/// Big-endian bytes round-trip through their value.
pub proof fn lemma_be_bytes_of_value(s: Seq<u8>)
    ensures
        be_value(s) < pow256(s.len()),
        be_bytes(be_value(s), s.len()) == s,
    decreases s.len(),
{
    if s.len() > 0 {
        lemma_be_bytes_of_value(s.drop_last());
        let v = be_value(s);
        let inner = be_value(s.drop_last());
        assert(v < 256 * pow256((s.len() - 1) as nat)) by (nonlinear_arith)
            requires
                v == 256 * inner + s.last(),
                inner < pow256((s.len() - 1) as nat),
                s.last() < 256,
        ;
        assert(v / 256 == inner && v % 256 == s.last()) by (nonlinear_arith)
            requires v == 256 * inner + s.last(), 0 <= s.last() < 256;
        assert(be_bytes(v, s.len()) == be_bytes(inner, (s.len() - 1) as nat) + seq![s.last() as u8]);
        assert(be_bytes(v, s.len()) =~= s);
    }
}

/// Appends the `n` big-endian bytes of `v`.
fn write_be(v: u128, n: usize, buf: &mut Vec<u8>)
    ensures
        final(buf)@ == old(buf)@ + be_bytes(v as nat, n as nat),
    decreases n,
{
    if n > 0 {
        write_be(v / 256, n - 1, buf);
        let b: u8 = (v % 256) as u8;
        proof {
            assert(old(buf)@ + be_bytes(v as nat / 256, (n - 1) as nat) + seq![b]
                == old(buf)@ + (be_bytes(v as nat / 256, (n - 1) as nat) + seq![b]));
        }
        buf.push(b);
    } else {
        proof {
            assert(old(buf)@ + be_bytes(v as nat, 0) =~= old(buf)@);
        }
    }
}

/// Reads `n` big-endian bytes at `pos` as a value; `n` is at most 16.
#[verifier::spinoff_prover]
#[verifier::rlimit(60)]
fn read_be(data: &[u8], pos: usize, n: usize) -> (r: Result<(u128, usize), DecodeError>)
    requires
        pos <= data@.len(),
        n <= 16,
    ensures
        match r {
            Ok((v, end)) => {
                &&& pos + n <= data@.len()
                &&& end == pos + n
                &&& v as nat == be_value(data@.subrange(pos as int, pos + n))
            },
            Err(e) => e == DecodeError::UnexpectedEof && pos + n > data@.len(),
        },
{
    if data.len() - pos < n {
        return Err(DecodeError::UnexpectedEof);
    }
    let mut acc: u128 = 0;
    let mut i: usize = 0;
    proof {
        assert(data@.subrange(pos as int, pos as int) =~= Seq::<u8>::empty());
        lemma_pow256_pos(0);
    }
    while i < n
        invariant
            i <= n,
            n <= 16,
            pos + n <= usize::MAX,
            pos + n <= data@.len(),
            acc as nat == be_value(data@.subrange(pos as int, pos + i)),
            acc < pow256(i as nat),
        decreases n - i,
    {
        let b = data[pos + i];
        proof {
            let s = data@.subrange(pos as int, pos + i);
            let s2 = data@.subrange(pos as int, pos + i + 1);
            assert(s2.drop_last() =~= s);
            assert(s2.last() == b);
            lemma_pow256_le((i + 1) as nat, 16);
            assert(pow256(16) == 0x1_0000_0000_0000_0000_0000_0000_0000_0000) by {
                reveal_with_fuel(pow256, 17);
            }
            assert(256 * (acc as nat) + b < 256 * pow256(i as nat)) by (nonlinear_arith)
                requires
                    (acc as nat) < pow256(i as nat),
                    b < 256,
            ;
        }
        acc = 256 * acc + (b as u128);
        i = i + 1;
    }
    Ok((acc, pos + n))
}

proof fn lemma_pow256_pos(n: nat)
    ensures
        pow256(n) >= 1,
    decreases n,
{
    if n > 0 {
        lemma_pow256_pos((n - 1) as nat);
        assert(256 * pow256((n - 1) as nat) >= 256) by (nonlinear_arith)
            requires pow256((n - 1) as nat) >= 1;
    }
}

proof fn lemma_pow256_le(n: nat, m: nat)
    requires
        n <= m,
    ensures
        pow256(n) <= pow256(m),
    decreases m,
{
    if n < m && m > 0 {
        lemma_pow256_le(n, (m - 1) as nat);
        lemma_pow256_pos((m - 1) as nat);
        assert(256 * pow256((m - 1) as nat) >= pow256((m - 1) as nat)) by (nonlinear_arith)
            requires pow256((m - 1) as nat) >= 1;
    }
}

} // verus!

verus! {

use vstd::utf8::{valid_utf8, decode_utf8, encode_utf8, encode_utf8_valid_utf8, encode_utf8_decode_utf8};

// ---------------------------------------------------------------------------
// Splitting a known concatenation: the workhorse for composite round trips.
// ---------------------------------------------------------------------------

/// If the bytes at `pos` are `a + b`, then `a` and `b` sit at their own
/// offsets.
pub proof fn lemma_split_concat(data: Seq<u8>, pos: int, a: Seq<u8>, b: Seq<u8>)
    requires
        0 <= pos,
        pos + a.len() + b.len() <= data.len(),
        data.subrange(pos, pos + a.len() + b.len()) == a + b,
    ensures
        data.subrange(pos, pos + a.len()) == a,
        data.subrange(pos + a.len(), pos + a.len() + b.len()) == b,
{
    let whole = data.subrange(pos, pos + a.len() + b.len());
    assert forall|i: int| 0 <= i < a.len() implies data.subrange(pos, pos + a.len())[i] == a[i] by {
        assert(whole[i] == (a + b)[i]);
    }
    assert(data.subrange(pos, pos + a.len()) =~= a);
    assert forall|i: int| 0 <= i < b.len() implies
        data.subrange(pos + a.len(), pos + a.len() + b.len())[i] == b[i] by {
        assert(whole[a.len() + i] == (a + b)[a.len() + i]);
    }
    assert(data.subrange(pos + a.len(), pos + a.len() + b.len()) =~= b);
}

// ---------------------------------------------------------------------------
// Typed fixed-width values.
// ---------------------------------------------------------------------------

/// One byte, 0x01 for true and 0x00 for false.
pub open spec fn bool_bytes(v: bool) -> Seq<u8> {
    seq![if v { 1u8 } else { 0u8 }]
}

/// The two big-endian bytes of an unsigned short.
pub open spec fn u16_bytes(v: u16) -> Seq<u8> {
    be_bytes(v as nat, 2)
}

/// The four big-endian bytes of a signed int, two's complement.
pub open spec fn i32_bytes(v: i32) -> Seq<u8> {
    be_bytes((v as u32) as nat, 4)
}

/// The two big-endian bytes of a signed short, two's complement.
pub open spec fn i16_bytes(v: i16) -> Seq<u8> {
    be_bytes((v as u16) as nat, 2)
}

/// The eight big-endian bytes of a signed long, two's complement.
pub open spec fn i64_bytes(v: i64) -> Seq<u8> {
    be_bytes((v as u64) as nat, 8)
}

/// The sixteen big-endian bytes of a UUID.
pub open spec fn u128_bytes(v: u128) -> Seq<u8> {
    be_bytes(v as nat, 16)
}

/// Parse of one raw byte.
pub open spec fn parse_u8(data: Seq<u8>, pos: int) -> Result<(u8, int), DecodeError> {
    if pos + 1 <= data.len() {
        Ok((data[pos], pos + 1))
    } else {
        Err(DecodeError::UnexpectedEof)
    }
}

/// Parse of one boolean byte: any nonzero byte reads as true.
pub open spec fn parse_bool(data: Seq<u8>, pos: int) -> Result<(bool, int), DecodeError> {
    if pos + 1 <= data.len() {
        Ok((data[pos] != 0, pos + 1))
    } else {
        Err(DecodeError::UnexpectedEof)
    }
}

/// Parse of one signed byte, two's complement.
pub open spec fn parse_i8(data: Seq<u8>, pos: int) -> Result<(i8, int), DecodeError> {
    if pos + 1 <= data.len() {
        Ok((data[pos] as i8, pos + 1))
    } else {
        Err(DecodeError::UnexpectedEof)
    }
}

/// Parse of a big-endian unsigned short.
pub open spec fn parse_u16(data: Seq<u8>, pos: int) -> Result<(u16, int), DecodeError> {
    if pos + 2 <= data.len() {
        Ok((be_value(data.subrange(pos, pos + 2)) as u16, pos + 2))
    } else {
        Err(DecodeError::UnexpectedEof)
    }
}

/// Parse of a big-endian signed short, two's complement.
pub open spec fn parse_i16(data: Seq<u8>, pos: int) -> Result<(i16, int), DecodeError> {
    if pos + 2 <= data.len() {
        Ok(((be_value(data.subrange(pos, pos + 2)) as u16) as i16, pos + 2))
    } else {
        Err(DecodeError::UnexpectedEof)
    }
}

/// Parse of a big-endian signed int, two's complement.
pub open spec fn parse_i32(data: Seq<u8>, pos: int) -> Result<(i32, int), DecodeError> {
    if pos + 4 <= data.len() {
        Ok(((be_value(data.subrange(pos, pos + 4)) as u32) as i32, pos + 4))
    } else {
        Err(DecodeError::UnexpectedEof)
    }
}

/// Parse of a big-endian signed long, two's complement.
pub open spec fn parse_i64(data: Seq<u8>, pos: int) -> Result<(i64, int), DecodeError> {
    if pos + 8 <= data.len() {
        Ok(((be_value(data.subrange(pos, pos + 8)) as u64) as i64, pos + 8))
    } else {
        Err(DecodeError::UnexpectedEof)
    }
}

/// Parse of a sixteen-byte big-endian UUID.
pub open spec fn parse_u128(data: Seq<u8>, pos: int) -> Result<(u128, int), DecodeError> {
    if pos + 16 <= data.len() {
        Ok((be_value(data.subrange(pos, pos + 16)) as u128, pos + 16))
    } else {
        Err(DecodeError::UnexpectedEof)
    }
}

/// Appends one raw byte.
pub fn write_u8(val: u8, buf: &mut Vec<u8>)
    ensures
        final(buf)@ == old(buf)@ + seq![val],
{
    buf.push(val);
}

/// Appends one boolean byte, exactly 0x01 or 0x00.
pub fn write_bool(val: bool, buf: &mut Vec<u8>)
    ensures
        final(buf)@ == old(buf)@ + bool_bytes(val),
{
    buf.push(if val { 1 } else { 0 });
}

/// Appends a big-endian unsigned short.
pub fn write_u16(val: u16, buf: &mut Vec<u8>)
    ensures
        final(buf)@ == old(buf)@ + u16_bytes(val),
{
    write_be(val as u128, 2, buf);
}

/// Appends a big-endian signed short, two's complement.
pub fn write_i16(val: i16, buf: &mut Vec<u8>)
    ensures
        final(buf)@ == old(buf)@ + i16_bytes(val),
{
    write_be((val as u16) as u128, 2, buf);
}

/// Appends a big-endian signed int, two's complement.
pub fn write_i32(val: i32, buf: &mut Vec<u8>)
    ensures
        final(buf)@ == old(buf)@ + i32_bytes(val),
{
    write_be((val as u32) as u128, 4, buf);
}

/// Appends a big-endian signed long, two's complement.
pub fn write_i64(val: i64, buf: &mut Vec<u8>)
    ensures
        final(buf)@ == old(buf)@ + i64_bytes(val),
{
    write_be((val as u64) as u128, 8, buf);
}

/// Appends a sixteen-byte big-endian UUID.
pub fn write_uuid(val: u128, buf: &mut Vec<u8>)
    ensures
        final(buf)@ == old(buf)@ + u128_bytes(val),
{
    write_be(val, 16, buf);
}

/// Reads one raw byte.
pub fn read_u8(data: &[u8], pos: usize) -> (r: Result<(u8, usize), DecodeError>)
    requires
        pos <= data@.len(),
    ensures
        match r {
            Ok((v, end)) => parse_u8(data@, pos as int) == Ok::<(u8, int), DecodeError>((v, end as int))
                && pos < end <= data@.len(),
            Err(e) => parse_u8(data@, pos as int) == Err::<(u8, int), DecodeError>(e),
        },
{
    if data.len() - pos < 1 {
        Err(DecodeError::UnexpectedEof)
    } else {
        Ok((data[pos], pos + 1))
    }
}

/// Reads one signed byte.
pub fn read_i8(data: &[u8], pos: usize) -> (r: Result<(i8, usize), DecodeError>)
    requires
        pos <= data@.len(),
    ensures
        match r {
            Ok((v, end)) => parse_i8(data@, pos as int) == Ok::<(i8, int), DecodeError>((v, end as int))
                && pos < end <= data@.len(),
            Err(e) => parse_i8(data@, pos as int) == Err::<(i8, int), DecodeError>(e),
        },
{
    if data.len() - pos < 1 {
        Err(DecodeError::UnexpectedEof)
    } else {
        Ok((data[pos] as i8, pos + 1))
    }
}

/// Reads one boolean byte.
pub fn read_bool(data: &[u8], pos: usize) -> (r: Result<(bool, usize), DecodeError>)
    requires
        pos <= data@.len(),
    ensures
        match r {
            Ok((v, end)) => parse_bool(data@, pos as int) == Ok::<(bool, int), DecodeError>((v, end as int))
                && pos < end <= data@.len(),
            Err(e) => parse_bool(data@, pos as int) == Err::<(bool, int), DecodeError>(e),
        },
{
    if data.len() - pos < 1 {
        Err(DecodeError::UnexpectedEof)
    } else {
        Ok((data[pos] != 0, pos + 1))
    }
}

/// Reads a big-endian unsigned short.
pub fn read_u16(data: &[u8], pos: usize) -> (r: Result<(u16, usize), DecodeError>)
    requires
        pos <= data@.len(),
    ensures
        match r {
            Ok((v, end)) => parse_u16(data@, pos as int) == Ok::<(u16, int), DecodeError>((v, end as int))
                && pos < end <= data@.len(),
            Err(e) => parse_u16(data@, pos as int) == Err::<(u16, int), DecodeError>(e),
        },
{
    match read_be(data, pos, 2) {
        Ok((v, end)) => {
            proof {
                lemma_be_bytes_of_value(data@.subrange(pos as int, pos + 2));
                assert(pow256(2) == 0x1_0000) by { reveal_with_fuel(pow256, 3); }
            }
            Ok((v as u16, end))
        }
        Err(e) => Err(e),
    }
}

/// Reads a big-endian signed short.
pub fn read_i16(data: &[u8], pos: usize) -> (r: Result<(i16, usize), DecodeError>)
    requires
        pos <= data@.len(),
    ensures
        match r {
            Ok((v, end)) => parse_i16(data@, pos as int) == Ok::<(i16, int), DecodeError>((v, end as int))
                && pos < end <= data@.len(),
            Err(e) => parse_i16(data@, pos as int) == Err::<(i16, int), DecodeError>(e),
        },
{
    match read_u16(data, pos) {
        Ok((v, end)) => Ok((v as i16, end)),
        Err(e) => Err(e),
    }
}

/// Reads a big-endian signed int.
pub fn read_i32(data: &[u8], pos: usize) -> (r: Result<(i32, usize), DecodeError>)
    requires
        pos <= data@.len(),
    ensures
        match r {
            Ok((v, end)) => parse_i32(data@, pos as int) == Ok::<(i32, int), DecodeError>((v, end as int))
                && pos < end <= data@.len(),
            Err(e) => parse_i32(data@, pos as int) == Err::<(i32, int), DecodeError>(e),
        },
{
    match read_be(data, pos, 4) {
        Ok((v, end)) => {
            proof {
                lemma_be_bytes_of_value(data@.subrange(pos as int, pos + 4));
                assert(pow256(4) == 0x1_0000_0000) by { reveal_with_fuel(pow256, 5); }
            }
            Ok(((v as u32) as i32, end))
        }
        Err(e) => Err(e),
    }
}

/// Reads a big-endian signed long.
pub fn read_i64(data: &[u8], pos: usize) -> (r: Result<(i64, usize), DecodeError>)
    requires
        pos <= data@.len(),
    ensures
        match r {
            Ok((v, end)) => parse_i64(data@, pos as int) == Ok::<(i64, int), DecodeError>((v, end as int))
                && pos < end <= data@.len(),
            Err(e) => parse_i64(data@, pos as int) == Err::<(i64, int), DecodeError>(e),
        },
{
    match read_be(data, pos, 8) {
        Ok((v, end)) => {
            proof {
                lemma_be_bytes_of_value(data@.subrange(pos as int, pos + 8));
                assert(pow256(8) == 0x1_0000_0000_0000_0000) by { reveal_with_fuel(pow256, 9); }
            }
            Ok(((v as u64) as i64, end))
        }
        Err(e) => Err(e),
    }
}

/// Reads a sixteen-byte big-endian UUID.
pub fn read_uuid(data: &[u8], pos: usize) -> (r: Result<(u128, usize), DecodeError>)
    requires
        pos <= data@.len(),
    ensures
        match r {
            Ok((v, end)) => parse_u128(data@, pos as int) == Ok::<(u128, int), DecodeError>((v, end as int))
                && pos < end <= data@.len(),
            Err(e) => parse_u128(data@, pos as int) == Err::<(u128, int), DecodeError>(e),
        },
{
    match read_be(data, pos, 16) {
        Ok((v, end)) => Ok((v, end)),
        Err(e) => Err(e),
    }
}

} // verus!

verus! {

// ---------------------------------------------------------------------------
// Strings: a VarInt byte-length prefix followed by UTF-8 bytes.  The length
// must fit in 32767 bytes and must not be negative.
// ---------------------------------------------------------------------------

/// The wire bytes of a string: byte-length prefix, then the UTF-8 bytes.
pub open spec fn string_encoding(s: Seq<char>) -> Seq<u8> {
    varint_encode(encode_utf8(s).len() as u32) + encode_utf8(s)
}

/// Parse of a length-prefixed UTF-8 string at `pos`.
pub open spec fn parse_string(data: Seq<u8>, pos: int) -> Result<(Seq<char>, int), DecodeError> {
    match parse_varint(data, pos) {
        Err(e) => Err(e),
        Ok((len_u, p)) => {
            let len = len_u as i32;
            if len < 0 || len > 32767 {
                Err(DecodeError::InvalidLength)
            } else if p + len > data.len() {
                Err(DecodeError::UnexpectedEof)
            } else {
                let bytes = data.subrange(p, p + len);
                if valid_utf8(bytes) {
                    Ok((decode_utf8(bytes), p + len))
                } else {
                    Err(DecodeError::InvalidUtf8)
                }
            }
        }
    }
}

/// Appends each byte of `data` in order.
pub fn push_bytes(buf: &mut Vec<u8>, data: &[u8])
    ensures
        final(buf)@ == old(buf)@ + data@,
{
    let mut i: usize = 0;
    proof {
        assert(buf@ + data@.subrange(0, 0) =~= buf@);
    }
    while i < data.len()
        invariant
            i <= data@.len(),
            buf@ == old(buf)@ + data@.subrange(0, i as int),
        decreases data@.len() - i,
    {
        let b = data[i];
        proof {
            assert(data@.subrange(0, i + 1) =~= data@.subrange(0, i as int).push(b));
            assert(old(buf)@ + data@.subrange(0, i as int).push(b)
                =~= (old(buf)@ + data@.subrange(0, i as int)).push(b));
        }
        buf.push(b);
        i = i + 1;
    }
    proof {
        assert(data@.subrange(0, data@.len() as int) =~= data@);
    }
}

/// Relies on `String::from_utf8`: it succeeds exactly when the bytes are
/// valid UTF-8, and then returns the string those bytes spell.
#[verifier::external_body]
pub(crate) fn vec_to_string(bytes: Vec<u8>) -> (r: Option<String>)
    ensures
        r is Some <==> valid_utf8(bytes@),
        r matches Some(s) ==> s@ == decode_utf8(bytes@),
{
    match String::from_utf8(bytes) {
        Ok(s) => Some(s),
        Err(_) => None,
    }
}

/// Appends the wire form of a string: VarInt byte length, then UTF-8 bytes.
pub fn write_string(val: &str, buf: &mut Vec<u8>)
    requires
        encode_utf8(val@).len() <= 0x7fff_ffff,
    ensures
        final(buf)@ == old(buf)@ + string_encoding(val@),
{
    let bytes = val.as_bytes();
    let n = bytes.len();
    write_varint(n as i32, buf);
    proof {
        assert((n as u32) == (n as i32) as u32) by (bit_vector)
            requires n <= 0x7fff_ffff;
    }
    push_bytes(buf, bytes);
    proof {
        assert(old(buf)@ + varint_encode(encode_utf8(val@).len() as u32) + encode_utf8(val@)
            =~= old(buf)@ + string_encoding(val@));
    }
}

/// Reads a length-prefixed UTF-8 string.
pub fn read_string(data: &[u8], pos: usize) -> (r: Result<(String, usize), DecodeError>)
    requires
        pos <= data@.len(),
    ensures
        match r {
            Ok((s, end)) => {
                &&& parse_string(data@, pos as int) == Ok::<(Seq<char>, int), DecodeError>((s@, end as int))
                &&& pos < end <= data@.len()
                &&& encode_utf8(s@) == data@.subrange(end - (encode_utf8(s@).len() as int), end as int)
                &&& encode_utf8(s@).len() <= 32767
            },
            Err(e) => parse_string(data@, pos as int) == Err::<(Seq<char>, int), DecodeError>(e),
        },
{
    let (len_v, p) = match read_varint(data, pos) {
        Ok(x) => x,
        Err(e) => {
            return Err(e);
        }
    };
    proof {
        assert((len_v as u32) as i32 == len_v) by (bit_vector);
    }
    if len_v < 0 || len_v > 32767 {
        return Err(DecodeError::InvalidLength);
    }
    let len = len_v as usize;
    if data.len() - p < len {
        return Err(DecodeError::UnexpectedEof);
    }
    let bytes_slice = vstd::slice::slice_subrange(data, p, p + len);
    let bytes = vstd::slice::slice_to_vec(bytes_slice);
    match vec_to_string(bytes) {
        Some(s) => {
            proof {
                vstd::utf8::decode_utf8_encode_utf8(data@.subrange(p as int, p + len));
            }
            Ok((s, p + len))
        }
        None => Err(DecodeError::InvalidUtf8),
    }
}

// ---------------------------------------------------------------------------
// Round-trip laws for the primitive types.
// ---------------------------------------------------------------------------

proof fn lemma_cast_identities()
    ensures
        forall|v: i16| #![trigger (v as u16)] ((v as u16) as i16) == v,
        forall|v: i32| #![trigger (v as u32)] ((v as u32) as i32) == v,
        forall|v: i64| #![trigger (v as u64)] ((v as u64) as i64) == v,
{
    assert forall|v: i16| #![trigger (v as u16)] ((v as u16) as i16) == v by {
        assert(((v as u16) as i16) == v) by (bit_vector);
    }
    assert forall|v: i32| #![trigger (v as u32)] ((v as u32) as i32) == v by {
        assert(((v as u32) as i32) == v) by (bit_vector);
    }
    assert forall|v: i64| #![trigger (v as u64)] ((v as u64) as i64) == v by {
        assert(((v as u64) as i64) == v) by (bit_vector);
    }
}

/// Round trip: a boolean byte placed at `pos` parses back to the value.
pub proof fn lemma_bool_round_trip(data: Seq<u8>, pos: int, v: bool)
    requires
        0 <= pos,
        pos + 1 <= data.len(),
        data.subrange(pos, pos + 1) == bool_bytes(v),
    ensures
        parse_bool(data, pos) == Ok::<(bool, int), DecodeError>((v, pos + 1)),
{
    assert(data[pos] == bool_bytes(v)[0]) by {
        assert(data.subrange(pos, pos + 1)[0] == data[pos]);
    }
}

/// Round trip: an unsigned short placed at `pos` parses back to the value.
pub proof fn lemma_u16_round_trip(data: Seq<u8>, pos: int, v: u16)
    requires
        0 <= pos,
        pos + 2 <= data.len(),
        data.subrange(pos, pos + 2) == u16_bytes(v),
    ensures
        parse_u16(data, pos) == Ok::<(u16, int), DecodeError>((v, pos + 2)),
{
    assert(pow256(2) == 0x1_0000) by { reveal_with_fuel(pow256, 3); }
    lemma_be_round_trip(v as nat, 2);
}

/// Round trip: a signed short placed at `pos` parses back to the value.
pub proof fn lemma_i16_round_trip(data: Seq<u8>, pos: int, v: i16)
    requires
        0 <= pos,
        pos + 2 <= data.len(),
        data.subrange(pos, pos + 2) == i16_bytes(v),
    ensures
        parse_i16(data, pos) == Ok::<(i16, int), DecodeError>((v, pos + 2)),
{
    assert(pow256(2) == 0x1_0000) by { reveal_with_fuel(pow256, 3); }
    lemma_be_round_trip((v as u16) as nat, 2);
    lemma_cast_identities();
}

/// Round trip: a signed int placed at `pos` parses back to the value.
pub proof fn lemma_i32_round_trip(data: Seq<u8>, pos: int, v: i32)
    requires
        0 <= pos,
        pos + 4 <= data.len(),
        data.subrange(pos, pos + 4) == i32_bytes(v),
    ensures
        parse_i32(data, pos) == Ok::<(i32, int), DecodeError>((v, pos + 4)),
{
    assert(pow256(4) == 0x1_0000_0000) by { reveal_with_fuel(pow256, 5); }
    lemma_be_round_trip((v as u32) as nat, 4);
    lemma_cast_identities();
}

/// Round trip: a signed long placed at `pos` parses back to the value.
pub proof fn lemma_i64_round_trip(data: Seq<u8>, pos: int, v: i64)
    requires
        0 <= pos,
        pos + 8 <= data.len(),
        data.subrange(pos, pos + 8) == i64_bytes(v),
    ensures
        parse_i64(data, pos) == Ok::<(i64, int), DecodeError>((v, pos + 8)),
{
    assert(pow256(8) == 0x1_0000_0000_0000_0000) by { reveal_with_fuel(pow256, 9); }
    lemma_be_round_trip((v as u64) as nat, 8);
    lemma_cast_identities();
}

/// Round trip: a UUID placed at `pos` parses back to the value.
pub proof fn lemma_u128_round_trip(data: Seq<u8>, pos: int, v: u128)
    requires
        0 <= pos,
        pos + 16 <= data.len(),
        data.subrange(pos, pos + 16) == u128_bytes(v),
    ensures
        parse_u128(data, pos) == Ok::<(u128, int), DecodeError>((v, pos + 16)),
{
    assert(pow256(16) == 0x1_0000_0000_0000_0000_0000_0000_0000_0000) by {
        reveal_with_fuel(pow256, 17);
    }
    lemma_be_round_trip(v as nat, 16);
}

/// Round trip: a string encoding placed at `pos` parses back to the same
/// character sequence, consuming exactly the encoding.
pub proof fn lemma_string_round_trip(data: Seq<u8>, pos: int, s: Seq<char>)
    requires
        0 <= pos,
        encode_utf8(s).len() <= 32767,
        pos + string_encoding(s).len() <= data.len(),
        data.subrange(pos, pos + string_encoding(s).len() as int) == string_encoding(s),
    ensures
        parse_string(data, pos) == Ok::<(Seq<char>, int), DecodeError>((s, pos + string_encoding(s).len())),
{
    let bytes = encode_utf8(s);
    let len_u: u32 = bytes.len() as u32;
    let prefix = varint_encode(len_u);
    lemma_split_concat(data, pos, prefix, bytes);
    lemma_varint_round_trip(data, pos, len_u);
    let p = pos + prefix.len();
    assert((len_u as i32) == len_u as int);
    encode_utf8_valid_utf8(s);
    encode_utf8_decode_utf8(s);
}

} // verus!

verus! {

/// The four big-endian bytes of an unsigned int.
pub open spec fn u32_bytes(v: u32) -> Seq<u8> {
    be_bytes(v as nat, 4)
}

/// The eight big-endian bytes of an unsigned long.
pub open spec fn u64_bytes(v: u64) -> Seq<u8> {
    be_bytes(v as nat, 8)
}

/// Parse of a big-endian unsigned int.
pub open spec fn parse_u32(data: Seq<u8>, pos: int) -> Result<(u32, int), DecodeError> {
    if pos + 4 <= data.len() {
        Ok((be_value(data.subrange(pos, pos + 4)) as u32, pos + 4))
    } else {
        Err(DecodeError::UnexpectedEof)
    }
}

/// Parse of a big-endian unsigned long.
pub open spec fn parse_u64(data: Seq<u8>, pos: int) -> Result<(u64, int), DecodeError> {
    if pos + 8 <= data.len() {
        Ok((be_value(data.subrange(pos, pos + 8)) as u64, pos + 8))
    } else {
        Err(DecodeError::UnexpectedEof)
    }
}

/// Appends a big-endian unsigned int.
pub fn write_u32(val: u32, buf: &mut Vec<u8>)
    ensures
        final(buf)@ == old(buf)@ + u32_bytes(val),
{
    write_be(val as u128, 4, buf);
}

/// Appends a big-endian unsigned long.
pub fn write_u64(val: u64, buf: &mut Vec<u8>)
    ensures
        final(buf)@ == old(buf)@ + u64_bytes(val),
{
    write_be(val as u128, 8, buf);
}

/// Reads a big-endian unsigned int.
pub fn read_u32(data: &[u8], pos: usize) -> (r: Result<(u32, usize), DecodeError>)
    requires
        pos <= data@.len(),
    ensures
        match r {
            Ok((v, end)) => parse_u32(data@, pos as int) == Ok::<(u32, int), DecodeError>((v, end as int))
                && pos < end <= data@.len(),
            Err(e) => parse_u32(data@, pos as int) == Err::<(u32, int), DecodeError>(e),
        },
{
    match read_be(data, pos, 4) {
        Ok((v, end)) => {
            proof {
                lemma_be_bytes_of_value(data@.subrange(pos as int, pos + 4));
                assert(pow256(4) == 0x1_0000_0000) by { reveal_with_fuel(pow256, 5); }
            }
            Ok((v as u32, end))
        }
        Err(e) => Err(e),
    }
}

/// Reads a big-endian unsigned long.
pub fn read_u64(data: &[u8], pos: usize) -> (r: Result<(u64, usize), DecodeError>)
    requires
        pos <= data@.len(),
    ensures
        match r {
            Ok((v, end)) => parse_u64(data@, pos as int) == Ok::<(u64, int), DecodeError>((v, end as int))
                && pos < end <= data@.len(),
            Err(e) => parse_u64(data@, pos as int) == Err::<(u64, int), DecodeError>(e),
        },
{
    match read_be(data, pos, 8) {
        Ok((v, end)) => {
            proof {
                lemma_be_bytes_of_value(data@.subrange(pos as int, pos + 8));
                assert(pow256(8) == 0x1_0000_0000_0000_0000) by { reveal_with_fuel(pow256, 9); }
            }
            Ok((v as u64, end))
        }
        Err(e) => Err(e),
    }
}

} // verus!

verus! {

/// The big-endian form of any value under `n` bytes is `n` bytes long.
pub proof fn lemma_be_bytes_len(v: nat, n: nat)
    ensures
        be_bytes(v, n).len() == n,
    decreases n,
{
    if n > 0 {
        lemma_be_bytes_len(v / 256, (n - 1) as nat);
    }
}

} // verus!
