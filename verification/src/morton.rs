//! Morton (Z-order) codes: three 21-bit coordinates interleaved bit by bit into one `u64`, so
//! that points close in space get close codes. Scaling a float position onto the 21-bit grid is
//! left to the caller; this module works on the grid coordinates.
use crate::rocketsim::Vec3;
use vstd::prelude::*;

verus! {

/// Bit `i` of `x`.
pub open spec fn bit(x: u64, i: u64) -> bool {
    (x >> i) & 1u64 == 1u64
}

/// Maps points of a box onto the 21-bit grid: a point's grid coordinates are its offset from
/// `offset` times `scale`. The floats travel as their bits; the scaling itself is done by the
/// caller.
#[derive(Clone, Copy, Debug, PartialEq, Eq, Structural)]
pub struct Morton {
    pub offset: Vec3,
    pub scale: Vec3,
}

/// The grid coordinate that bit `i` of a code is taken from: `x`, `y` and `z` take turns.
pub open spec fn coordinate_at(x: u32, y: u32, z: u32, i: u64) -> u64 {
    if i % 3 == 0 {
        x as u64
    } else if i % 3 == 1 {
        y as u64
    } else {
        z as u64
    }
}

/// Whether `r` is the Morton code of the grid point `(x, y, z)`: bit `i` of `r` is bit `i / 3`
/// of the coordinate whose turn it is, for the 63 bits that three 21-bit coordinates fill; the
/// top bit is zero.
pub open spec fn is_morton_code(r: u64, x: u32, y: u32, z: u32) -> bool {
    forall|i: u64| i < 64 ==> #[trigger] bit(r, i) == (i < 63 && bit(coordinate_at(x, y, z, i), i / 3))
}

/// The bits of `a | b << 1 | c << 2`, each from the one shifted value that can hold it.
proof fn lemma_bits_of_shifted_or(a: u64, b: u64, c: u64, i: u64)
    by (bit_vector)
    requires
        i < 64,
    ensures
        bit(a | (b << 1u64) | (c << 2u64), i) == (bit(a, i) || (i >= 1 && bit(b, (i - 1) as u64)) || (
        i >= 2 && bit(c, (i - 2) as u64))),
{
}

impl Morton {
    /// Spreads the low 21 bits of `a` so that bit `k` lands on bit `3k`; every other bit is zero.
    pub fn expand3(a: u32) -> (r: u64)
        ensures
            forall|i: u64| i < 64 ==> #[trigger] bit(r, i) == (i % 3 == 0 && i < 63 && bit(a as u64, i / 3)),
    {
        let x0: u64 = (a as u64) & 0x001f_ffff;
        let x1: u64 = (x0 | (x0 << 32u64)) & 0x001f_0000_0000_ffff;
        let x2: u64 = (x1 | (x1 << 16u64)) & 0x001f_0000_ff00_00ff;
        let x3: u64 = (x2 | (x2 << 8u64)) & 0x100f_00f0_0f00_f00f;
        let x4: u64 = (x3 | (x3 << 4u64)) & 0x10c3_0c30_c30c_30c3;
        let x5: u64 = (x4 | (x4 << 2u64)) & 0x1249_2492_4924_9249;
        let ghost w: u64 = a as u64;
        assert(forall|i: u64|
            i < 64 ==> (((x5 >> i) & 1u64 == 1u64) == (i % 3 == 0 && i < 63 && ((w >> (i / 3)) & 1u64
                == 1u64)))) by (bit_vector)
            requires
                w < 0x1_0000_0000,
                x0 == w & 0x001f_ffff,
                x1 == (x0 | (x0 << 32u64)) & 0x001f_0000_0000_ffff,
                x2 == (x1 | (x1 << 16u64)) & 0x001f_0000_ff00_00ff,
                x3 == (x2 | (x2 << 8u64)) & 0x100f_00f0_0f00_f00f,
                x4 == (x3 | (x3 << 4u64)) & 0x10c3_0c30_c30c_30c3,
                x5 == (x4 | (x4 << 2u64)) & 0x1249_2492_4924_9249,
        ;
        x5
    }

    /// Interleaves the low 21 bits of three grid coordinates into their Morton code.
    pub fn interleave(x: u32, y: u32, z: u32) -> (r: u64)
        ensures
            is_morton_code(r, x, y, z),
    {
        let ex = Self::expand3(x);
        let ey = Self::expand3(y);
        let ez = Self::expand3(z);
        let r = ex | (ey << 1u64) | (ez << 2u64);
        assert forall|i: u64| i < 64 implies #[trigger] bit(r, i) == (i < 63 && bit(
            coordinate_at(x, y, z, i),
            i / 3,
        )) by {
            lemma_bits_of_shifted_or(ex, ey, ez, i);
            assert(bit(ex, i) == (i % 3 == 0 && i < 63 && bit(x as u64, i / 3)));
            if i >= 1 {
                assert(bit(ey, (i - 1) as u64) == ((i - 1) as u64 % 3 == 0 && ((i - 1) as u64) < 63 && bit(
                    y as u64,
                    (i - 1) as u64 / 3,
                )));
            }
            if i >= 2 {
                assert(bit(ez, (i - 2) as u64) == ((i - 2) as u64 % 3 == 0 && ((i - 2) as u64) < 63 && bit(
                    z as u64,
                    (i - 2) as u64 / 3,
                )));
            }
        }
        r
    }
}

/// Values whose bits 0 to 20 agree have the same low 21 bits.
proof fn lemma_low_bits_agree(a: u64, b: u64)
    by (bit_vector)
    requires
        bit(a, 0u64) == bit(b, 0u64),
        bit(a, 1u64) == bit(b, 1u64),
        bit(a, 2u64) == bit(b, 2u64),
        bit(a, 3u64) == bit(b, 3u64),
        bit(a, 4u64) == bit(b, 4u64),
        bit(a, 5u64) == bit(b, 5u64),
        bit(a, 6u64) == bit(b, 6u64),
        bit(a, 7u64) == bit(b, 7u64),
        bit(a, 8u64) == bit(b, 8u64),
        bit(a, 9u64) == bit(b, 9u64),
        bit(a, 10u64) == bit(b, 10u64),
        bit(a, 11u64) == bit(b, 11u64),
        bit(a, 12u64) == bit(b, 12u64),
        bit(a, 13u64) == bit(b, 13u64),
        bit(a, 14u64) == bit(b, 14u64),
        bit(a, 15u64) == bit(b, 15u64),
        bit(a, 16u64) == bit(b, 16u64),
        bit(a, 17u64) == bit(b, 17u64),
        bit(a, 18u64) == bit(b, 18u64),
        bit(a, 19u64) == bit(b, 19u64),
        bit(a, 20u64) == bit(b, 20u64),
    ensures
        a & 0x1f_ffffu64 == b & 0x1f_ffffu64,
{
}

/// Values whose 64 bits agree are equal.
proof fn lemma_bits_agree(a: u64, b: u64)
    by (bit_vector)
    requires
        bit(a, 0u64) == bit(b, 0u64),
        bit(a, 1u64) == bit(b, 1u64),
        bit(a, 2u64) == bit(b, 2u64),
        bit(a, 3u64) == bit(b, 3u64),
        bit(a, 4u64) == bit(b, 4u64),
        bit(a, 5u64) == bit(b, 5u64),
        bit(a, 6u64) == bit(b, 6u64),
        bit(a, 7u64) == bit(b, 7u64),
        bit(a, 8u64) == bit(b, 8u64),
        bit(a, 9u64) == bit(b, 9u64),
        bit(a, 10u64) == bit(b, 10u64),
        bit(a, 11u64) == bit(b, 11u64),
        bit(a, 12u64) == bit(b, 12u64),
        bit(a, 13u64) == bit(b, 13u64),
        bit(a, 14u64) == bit(b, 14u64),
        bit(a, 15u64) == bit(b, 15u64),
        bit(a, 16u64) == bit(b, 16u64),
        bit(a, 17u64) == bit(b, 17u64),
        bit(a, 18u64) == bit(b, 18u64),
        bit(a, 19u64) == bit(b, 19u64),
        bit(a, 20u64) == bit(b, 20u64),
        bit(a, 21u64) == bit(b, 21u64),
        bit(a, 22u64) == bit(b, 22u64),
        bit(a, 23u64) == bit(b, 23u64),
        bit(a, 24u64) == bit(b, 24u64),
        bit(a, 25u64) == bit(b, 25u64),
        bit(a, 26u64) == bit(b, 26u64),
        bit(a, 27u64) == bit(b, 27u64),
        bit(a, 28u64) == bit(b, 28u64),
        bit(a, 29u64) == bit(b, 29u64),
        bit(a, 30u64) == bit(b, 30u64),
        bit(a, 31u64) == bit(b, 31u64),
        bit(a, 32u64) == bit(b, 32u64),
        bit(a, 33u64) == bit(b, 33u64),
        bit(a, 34u64) == bit(b, 34u64),
        bit(a, 35u64) == bit(b, 35u64),
        bit(a, 36u64) == bit(b, 36u64),
        bit(a, 37u64) == bit(b, 37u64),
        bit(a, 38u64) == bit(b, 38u64),
        bit(a, 39u64) == bit(b, 39u64),
        bit(a, 40u64) == bit(b, 40u64),
        bit(a, 41u64) == bit(b, 41u64),
        bit(a, 42u64) == bit(b, 42u64),
        bit(a, 43u64) == bit(b, 43u64),
        bit(a, 44u64) == bit(b, 44u64),
        bit(a, 45u64) == bit(b, 45u64),
        bit(a, 46u64) == bit(b, 46u64),
        bit(a, 47u64) == bit(b, 47u64),
        bit(a, 48u64) == bit(b, 48u64),
        bit(a, 49u64) == bit(b, 49u64),
        bit(a, 50u64) == bit(b, 50u64),
        bit(a, 51u64) == bit(b, 51u64),
        bit(a, 52u64) == bit(b, 52u64),
        bit(a, 53u64) == bit(b, 53u64),
        bit(a, 54u64) == bit(b, 54u64),
        bit(a, 55u64) == bit(b, 55u64),
        bit(a, 56u64) == bit(b, 56u64),
        bit(a, 57u64) == bit(b, 57u64),
        bit(a, 58u64) == bit(b, 58u64),
        bit(a, 59u64) == bit(b, 59u64),
        bit(a, 60u64) == bit(b, 60u64),
        bit(a, 61u64) == bit(b, 61u64),
        bit(a, 62u64) == bit(b, 62u64),
        bit(a, 63u64) == bit(b, 63u64),
    ensures
        a == b,
{
}

/// A grid point has one Morton code, and a code names one grid point: two points with the same
/// code agree on the low 21 bits of every coordinate.
pub proof fn lemma_morton_code_one_to_one(
    r1: u64,
    r2: u64,
    x1: u32,
    y1: u32,
    z1: u32,
    x2: u32,
    y2: u32,
    z2: u32,
)
    requires
        is_morton_code(r1, x1, y1, z1),
        is_morton_code(r2, x2, y2, z2),
    ensures
        r1 == r2 <==> (x1 & 0x1f_ffff == x2 & 0x1f_ffff && y1 & 0x1f_ffff == y2 & 0x1f_ffff && z1
            & 0x1f_ffff == z2 & 0x1f_ffff),
{
    let (a1, b1, c1) = (x1 as u64, y1 as u64, z1 as u64);
    let (a2, b2, c2) = (x2 as u64, y2 as u64, z2 as u64);
    assert(x1 & 0x1f_ffff == x2 & 0x1f_ffff <==> a1 & 0x1f_ffff == a2 & 0x1f_ffff) by (bit_vector)
        requires
            a1 == x1 as u64,
            a2 == x2 as u64,
    ;
    assert(y1 & 0x1f_ffff == y2 & 0x1f_ffff <==> b1 & 0x1f_ffff == b2 & 0x1f_ffff) by (bit_vector)
        requires
            b1 == y1 as u64,
            b2 == y2 as u64,
    ;
    assert(z1 & 0x1f_ffff == z2 & 0x1f_ffff <==> c1 & 0x1f_ffff == c2 & 0x1f_ffff) by (bit_vector)
        requires
            c1 == z1 as u64,
            c2 == z2 as u64,
    ;
    if r1 == r2 {
        assert forall|j: u64| j < 21 implies #[trigger] bit(a1, j) == bit(a2, j) by {
            assert(bit(r1, (3 * j) as u64) == bit(r2, (3 * j) as u64));
            assert((3 * j) as u64 / 3 == j);
        }
        assert forall|j: u64| j < 21 implies #[trigger] bit(b1, j) == bit(b2, j) by {
            assert(bit(r1, (3 * j + 1) as u64) == bit(r2, (3 * j + 1) as u64));
            assert((3 * j + 1) as u64 / 3 == j);
        }
        assert forall|j: u64| j < 21 implies #[trigger] bit(c1, j) == bit(c2, j) by {
            assert(bit(r1, (3 * j + 2) as u64) == bit(r2, (3 * j + 2) as u64));
            assert((3 * j + 2) as u64 / 3 == j);
        }
        lemma_low_bits_agree(a1, a2);
        lemma_low_bits_agree(b1, b2);
        lemma_low_bits_agree(c1, c2);
    }
    if a1 & 0x1f_ffff == a2 & 0x1f_ffff && b1 & 0x1f_ffff == b2 & 0x1f_ffff && c1 & 0x1f_ffff == c2
        & 0x1f_ffff {
        assert forall|j: u64| j < 21 implies bit(a1, j) == bit(a2, j) && bit(b1, j) == bit(b2, j)
            && bit(c1, j) == bit(c2, j) by {
            assert(a1 & 0x1f_ffff == a2 & 0x1f_ffff && j < 21 ==> bit(a1, j) == bit(a2, j))
                by (bit_vector);
            assert(b1 & 0x1f_ffff == b2 & 0x1f_ffff && j < 21 ==> bit(b1, j) == bit(b2, j))
                by (bit_vector);
            assert(c1 & 0x1f_ffff == c2 & 0x1f_ffff && j < 21 ==> bit(c1, j) == bit(c2, j))
                by (bit_vector);
        }
        assert forall|i: u64| i < 64 implies #[trigger] bit(r1, i) == bit(r2, i) by {
            assert(bit(r1, i) == (i < 63 && bit(coordinate_at(x1, y1, z1, i), i / 3)));
            assert(bit(r2, i) == (i < 63 && bit(coordinate_at(x2, y2, z2, i), i / 3)));
            if i < 63 {
                assert(i / 3 < 21);
            }
        }
        lemma_bits_agree(r1, r2);
    }
}

} // verus!
