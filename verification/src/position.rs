//! Packed block positions: three signed fields in one 64-bit word.
//!
//! Layout: bits 63..38 hold x (26 bits), bits 37..12 hold z (26 bits),
//! bits 11..0 hold y (12 bits), each two's complement.  Arithmetically the
//! word is `(x mod 2^26) * 2^38 + (z mod 2^26) * 2^12 + (y mod 2^12)`.
use vstd::prelude::*;

use crate::codec::{be_bytes, be_value, DecodeError};
use crate::data_types::PacketWrite;

verus! {

use vstd::arithmetic::div_mod::{lemma_fundamental_div_mod, lemma_fundamental_div_mod_converse};

/// A block position with bounded signed coordinates.
#[derive(Debug, Clone, Copy, PartialEq, Eq, Structural)]
pub struct Position {
    /// East-west coordinate, 26 bits on the wire.
    pub x: i32,
    /// North-south coordinate, 26 bits on the wire.
    pub z: i32,
    /// Height, 12 bits on the wire.
    pub y: i16,
}

/// The x field reduced to its 26-bit two's-complement pattern.
pub open spec fn field26(v: int) -> int {
    v % 0x400_0000
}

/// The y field reduced to its 12-bit two's-complement pattern.
pub open spec fn field12(v: int) -> int {
    v % 0x1000
}

/// The packed 64-bit word of a position.
pub open spec fn position_packed(p: Position) -> u64 {
    (field26(p.x as int) * 0x40_0000_0000 + field26(p.z as int) * 0x1000 + field12(p.y as int)) as u64
}

/// Sign extension of a 26-bit field pattern.
pub open spec fn sign26(f: int) -> i32 {
    if f >= 0x200_0000 {
        (f - 0x400_0000) as i32
    } else {
        f as i32
    }
}

/// Sign extension of a 12-bit field pattern.
pub open spec fn sign12(f: int) -> i16 {
    if f >= 0x800 {
        (f - 0x1000) as i16
    } else {
        f as i16
    }
}

/// The position a packed 64-bit word stands for.
pub open spec fn position_unpacked(v: u64) -> Position {
    Position {
        x: sign26(v as int / 0x40_0000_0000),
        z: sign26((v as int / 0x1000) % 0x400_0000),
        y: sign12(v as int % 0x1000),
    }
}

/// The eight wire bytes of a position.
pub open spec fn position_bytes(p: Position) -> Seq<u8> {
    be_bytes(position_packed(p) as nat, 8)
}

/// Parse of a packed position at `pos`: eight big-endian bytes, then the
/// three fields recovered with sign extension.
pub open spec fn parse_position(data: Seq<u8>, pos: int) -> Result<(Position, int), DecodeError> {
    if pos + 8 <= data.len() {
        Ok((position_unpacked(be_value(data.subrange(pos, pos + 8)) as u64), pos + 8))
    } else {
        Err(DecodeError::UnexpectedEof)
    }
}

/// Euclidean remainder of a value whose sign is unknown, computed from the
/// remainder of its magnitude.
fn euclid_rem(v: i64, n: u64) -> (r: u64)
    requires
        0 < n <= 0x8000_0000,
        -0x8000_0000 <= v <= 0x7fff_ffff,
    ensures
        r as int == (v as int) % (n as int),
{
    if v >= 0 {
        (v as u64) % n
    } else {
        let m = ((-v) as u64) % n;
        proof {
            let vi = v as int;
            let ni = n as int;
            let q = (-vi) / ni;
            let r0 = (-vi) % ni;
            lemma_fundamental_div_mod(-vi, ni);
            if m == 0 {
                assert(vi == (-q) * ni + 0) by (nonlinear_arith)
                    requires -vi == ni * q + r0, r0 == 0;
                lemma_fundamental_div_mod_converse(vi, ni, -q, 0);
            } else {
                assert(vi == (-q - 1) * ni + (ni - r0)) by (nonlinear_arith)
                    requires -vi == ni * q + r0;
                lemma_fundamental_div_mod_converse(vi, ni, -q - 1, ni - r0);
            }
        }
        if m == 0 {
            0
        } else {
            n - m
        }
    }
}

impl Position {
    /// Builds a position from its coordinates.
    pub fn new(x: i32, y: i16, z: i32) -> (r: Self)
        ensures
            r == (Position { x, z, y }),
    {
        Position { x, y, z }
    }

    /// Packs the three fields into one 64-bit word, reducing each to its
    /// bit width first so a negative field cannot spill into its neighbor.
    pub fn to_u64(&self) -> (r: u64)
        ensures
            r == position_packed(*self),
    {
        let ex: u64 = euclid_rem(self.x as i64, 0x400_0000);
        let ez: u64 = euclid_rem(self.z as i64, 0x400_0000);
        let ey: u64 = euclid_rem(self.y as i64, 0x1000);
        ex * 0x40_0000_0000 + ez * 0x1000 + ey
    }

    /// Unpacks a 64-bit word, sign-extending each field.
    pub fn from_u64(val: u64) -> (r: Self)
        ensures
            r == position_unpacked(val),
    {
        let xf: u64 = val / 0x40_0000_0000;
        let zf: u64 = (val / 0x1000) % 0x400_0000;
        let yf: u64 = val % 0x1000;
        let x: i32 = if xf >= 0x200_0000 {
            (xf as i64 - 0x400_0000) as i32
        } else {
            xf as i32
        };
        let z: i32 = if zf >= 0x200_0000 {
            (zf as i64 - 0x400_0000) as i32
        } else {
            zf as i32
        };
        let y: i16 = if yf >= 0x800 {
            (yf as i64 - 0x1000) as i16
        } else {
            yf as i16
        };
        Position { x, z, y }
    }
}

impl PacketWrite for Position {
    open spec fn encoded(&self) -> Seq<u8> {
        position_bytes(*self)
    }

    open spec fn writable(&self) -> bool {
        true
    }

    fn write_to(&self, buf: &mut Vec<u8>) {
        crate::codec::write_i64(self.to_u64() as i64, buf);
        proof {
            let w = position_packed(*self);
            assert((w as i64) as u64 == w) by (bit_vector);
        }
    }
}

/// Whether a position's coordinates fit their wire bit widths.
pub open spec fn position_representable(p: Position) -> bool {
    &&& -0x200_0000 <= p.x < 0x200_0000
    &&& -0x200_0000 <= p.z < 0x200_0000
    &&& -0x800 <= p.y < 0x800
}

proof fn lemma_field26_in_range(v: int)
    requires
        -0x200_0000 <= v < 0x200_0000,
    ensures
        0 <= field26(v) < 0x400_0000,
        sign26(field26(v)) as int == v,
{
    if v >= 0 {
        lemma_fundamental_div_mod_converse(v, 0x400_0000, 0, v);
    } else {
        lemma_fundamental_div_mod_converse(v, 0x400_0000, -1, v + 0x400_0000);
    }
}

proof fn lemma_field12_in_range(v: int)
    requires
        -0x800 <= v < 0x800,
    ensures
        0 <= field12(v) < 0x1000,
        sign12(field12(v)) as int == v,
{
    if v >= 0 {
        lemma_fundamental_div_mod_converse(v, 0x1000, 0, v);
    } else {
        lemma_fundamental_div_mod_converse(v, 0x1000, -1, v + 0x1000);
    }
}

/// Round trip: packing a representable position and unpacking the word
/// gives back exactly the same coordinates.
pub proof fn lemma_position_round_trip(p: Position)
    requires
        position_representable(p),
    ensures
        position_unpacked(position_packed(p)) == p,
{
    lemma_field26_in_range(p.x as int);
    lemma_field26_in_range(p.z as int);
    lemma_field12_in_range(p.y as int);
    let ex = field26(p.x as int);
    let ez = field26(p.z as int);
    let ey = field12(p.y as int);
    let w = ex * 0x40_0000_0000 + ez * 0x1000 + ey;
    assert(ex * 0x40_0000_0000 <= 0x3ff_ffff * 0x40_0000_0000) by (nonlinear_arith)
        requires ex <= 0x3ff_ffff;
    assert(w / 0x40_0000_0000 == ex) by (nonlinear_arith)
        requires
            w == ex * 0x40_0000_0000 + ez * 0x1000 + ey,
            0 <= ez < 0x400_0000,
            0 <= ey < 0x1000,
            0 <= ex,
    ;
    assert(w / 0x1000 == ex * 0x400_0000 + ez) by (nonlinear_arith)
        requires
            w == ex * 0x40_0000_0000 + ez * 0x1000 + ey,
            0 <= ey < 0x1000,
    ;
    assert((ex * 0x400_0000 + ez) % 0x400_0000 == ez) by (nonlinear_arith)
        requires
            0 <= ez < 0x400_0000,
            0 <= ex,
    ;
    assert(w % 0x1000 == ey) by (nonlinear_arith)
        requires
            w == (ex * 0x400_0000 + ez) * 0x1000 + ey,
            0 <= ey < 0x1000,
            0 <= ex * 0x400_0000 + ez,
    ;
}

} // verus!

verus! {

proof fn lemma_sign26_field(f: int)
    requires
        0 <= f < 0x400_0000,
    ensures
        -0x200_0000 <= sign26(f) < 0x200_0000,
        field26(sign26(f) as int) == f,
{
    if f >= 0x200_0000 {
        lemma_fundamental_div_mod_converse(f - 0x400_0000, 0x400_0000, -1, f);
    } else {
        lemma_fundamental_div_mod_converse(f, 0x400_0000, 0, f);
    }
}

proof fn lemma_sign12_field(f: int)
    requires
        0 <= f < 0x1000,
    ensures
        -0x800 <= sign12(f) < 0x800,
        field12(sign12(f) as int) == f,
{
    if f >= 0x800 {
        lemma_fundamental_div_mod_converse(f - 0x1000, 0x1000, -1, f);
    } else {
        lemma_fundamental_div_mod_converse(f, 0x1000, 0, f);
    }
}

/// Round trip in the other direction: every packed word unpacks to a
/// representable position that packs back to the same word, so the codec
/// reproduces any bytes it can itself produce.
pub proof fn lemma_position_repack(v: u64)
    ensures
        position_representable(position_unpacked(v)),
        position_packed(position_unpacked(v)) == v,
{
    let vi = v as int;
    let fx = vi / 0x40_0000_0000;
    let fz = (vi / 0x1000) % 0x400_0000;
    let fy = vi % 0x1000;
    assert(0 <= fx < 0x400_0000) by (nonlinear_arith)
        requires 0 <= vi < 0x1_0000_0000_0000_0000, fx == vi / 0x40_0000_0000;
    lemma_fundamental_div_mod(vi, 0x40_0000_0000);
    let r38 = vi % 0x40_0000_0000;
    assert(vi % 0x1000 == r38 % 0x1000) by (nonlinear_arith)
        requires vi == 0x40_0000_0000 * (vi / 0x40_0000_0000) + r38, 0 <= r38;
    assert(vi / 0x1000 == fx * 0x400_0000 + r38 / 0x1000) by (nonlinear_arith)
        requires
            vi == 0x40_0000_0000 * fx + r38,
            0 <= r38 < 0x40_0000_0000,
            fx == vi / 0x40_0000_0000,
    ;
    assert(0 <= r38 / 0x1000 < 0x400_0000);
    assert((fx * 0x400_0000 + r38 / 0x1000) % 0x400_0000 == r38 / 0x1000) by (nonlinear_arith)
        requires 0 <= r38 / 0x1000 < 0x400_0000, 0 <= fx;
    assert(fz == r38 / 0x1000);
    lemma_sign26_field(fx);
    lemma_sign26_field(fz);
    lemma_sign12_field(fy);
    lemma_fundamental_div_mod(r38, 0x1000);
    assert(fx * 0x40_0000_0000 + fz * 0x1000 + fy == vi) by (nonlinear_arith)
        requires
            vi == 0x40_0000_0000 * fx + r38,
            r38 == 0x1000 * (r38 / 0x1000) + r38 % 0x1000,
            fz == r38 / 0x1000,
            fy == r38 % 0x1000,
    ;
}

} // verus!
