//! Little-endian primitives of the level file, and the conversion of its
//! 32-bit floats into the fixed-point coordinates used everywhere else.
use vstd::prelude::*;
use vstd::arithmetic::power2::{pow2, lemma_pow2_unfold, lemma_pow2_strictly_increases, lemma2_to64};

verus! {

/// Fractional bits of a fixed-point coordinate: one map unit is `FIXED_ONE`.
pub const FIXED_ONE: i64 = 65536;

/// Exclusive bound on the magnitude of any coordinate, in fixed units
/// (2^24 map units).
pub const COORD_LIMIT: i64 = 0x100_0000_0000;

pub open spec fn le_u16(b: Seq<u8>, at: int) -> int {
    b[at] + 256 * b[at + 1]
}

pub open spec fn le_u32(b: Seq<u8>, at: int) -> int {
    b[at] + 256 * b[at + 1] + 65536 * b[at + 2] + 16777216 * b[at + 3]
}

pub open spec fn le_i16(b: Seq<u8>, at: int) -> int {
    if le_u16(b, at) >= 32768 {
        le_u16(b, at) - 65536
    } else {
        le_u16(b, at)
    }
}

pub open spec fn le_i32(b: Seq<u8>, at: int) -> int {
    if le_u32(b, at) >= 0x8000_0000 {
        le_u32(b, at) - 0x1_0000_0000
    } else {
        le_u32(b, at)
    }
}

pub fn read_u16(b: &[u8], at: usize) -> (r: u16)
    requires
        at + 2 <= b@.len(),
    ensures
        r == le_u16(b@, at as int),
{
    b[at] as u16 + (b[at + 1] as u16) * 256
}

pub fn read_i16(b: &[u8], at: usize) -> (r: i16)
    requires
        at + 2 <= b@.len(),
    ensures
        r == le_i16(b@, at as int),
{
    let u = read_u16(b, at);
    if u >= 32768 {
        (u as i32 - 65536) as i16
    } else {
        u as i16
    }
}

pub fn read_u32(b: &[u8], at: usize) -> (r: u32)
    requires
        at + 4 <= b@.len(),
    ensures
        r == le_u32(b@, at as int),
{
    b[at] as u32 + (b[at + 1] as u32) * 256 + (b[at + 2] as u32) * 65536 + (b[at + 3] as u32)
        * 16777216
}

pub fn read_i32(b: &[u8], at: usize) -> (r: i32)
    requires
        at + 4 <= b@.len(),
    ensures
        r == le_i32(b@, at as int),
{
    let u = read_u32(b, at);
    if u >= 0x8000_0000 {
        (u as i64 - 0x1_0000_0000) as i32
    } else {
        u as i32
    }
}

/// Biased exponent field of a single-precision float.
pub open spec fn float_exponent(bits: u32) -> int {
    ((bits / 0x80_0000) % 256) as int
}

/// Stored mantissa field of a single-precision float.
pub open spec fn float_mantissa(bits: u32) -> int {
    (bits % 0x80_0000) as int
}

/// `|value| * FIXED_ONE`, truncated toward zero, of a finite float.
/// A float with biased exponent `e` and mantissa `m` is `(m + 2^23) * 2^(e - 150)`,
/// so the fixed value is that times `2^16`; zero and subnormals are below `2^-126`.
#[verifier::opaque]
pub open spec fn float_fixed_magnitude(bits: u32) -> int {
    let e = float_exponent(bits);
    let m = float_mantissa(bits) + 0x80_0000;
    if e == 0 {
        0
    } else if e >= 134 {
        m * pow2((e - 134) as nat)
    } else {
        m / (pow2((134 - e) as nat) as int)
    }
}

/// Fixed-point value of a float, truncated toward zero.
pub open spec fn float_fixed(bits: u32) -> int {
    if bits >= 0x8000_0000 {
        -float_fixed_magnitude(bits)
    } else {
        float_fixed_magnitude(bits)
    }
}

/// A float that is finite and within the coordinate range.
pub open spec fn float_in_range(bits: u32) -> bool {
    float_exponent(bits) != 255 && float_fixed_magnitude(bits) < COORD_LIMIT
}

pub proof fn lemma_float_fixed_range(bits: u32)
    requires
        float_in_range(bits),
    ensures
        -COORD_LIMIT < float_fixed(bits) < COORD_LIMIT,
{
    reveal(float_fixed_magnitude);
    let e = float_exponent(bits);
    let m = float_mantissa(bits) + 0x80_0000;
    if e >= 134 {
        let p = pow2((e - 134) as nat);
        vstd::arithmetic::power2::lemma_pow2_pos((e - 134) as nat);
        assert(m * p >= 0) by (nonlinear_arith)
            requires
                m >= 0,
                p > 0,
        ;
    } else if e != 0 {
        vstd::arithmetic::power2::lemma_pow2_pos((134 - e) as nat);
        vstd::arithmetic::div_mod::lemma_div_pos_is_pos(m, pow2((134 - e) as nat) as int);
    }
}

fn pow2_u64(k: u32) -> (r: u64)
    requires
        k <= 24,
    ensures
        r == pow2(k as nat),
        0 < r <= 0x100_0000,
{
    let mut p: u64 = 1;
    let mut i: u32 = 0;
    proof {
        lemma2_to64();
    }
    while i < k
        invariant
            i <= k <= 24,
            p == pow2(i as nat),
            0 < p <= 0x100_0000,
        decreases k - i,
    {
        proof {
            lemma2_to64();
            lemma_pow2_unfold((i + 1) as nat);
            if i + 1 < 24 {
                lemma_pow2_strictly_increases((i + 1) as nat, 24);
            }
        }
        p = p * 2;
        i = i + 1;
    }
    p
}

/// Decodes a float field into a fixed-point coordinate; `None` for an infinity,
/// a NaN, or a value outside the coordinate range.
pub fn fixed_from_float_bits(bits: u32) -> (r: Option<i64>)
    ensures
        r is Some <==> float_in_range(bits),
        r matches Some(v) ==> v == float_fixed(bits) && -COORD_LIMIT < v < COORD_LIMIT,
{
    reveal(float_fixed_magnitude);
    let e = (bits / 0x80_0000) % 256;
    let m = (bits % 0x80_0000) as u64 + 0x80_0000;
    if e == 255 {
        return None;
    }
    let mag: u64;
    if e == 0 {
        mag = 0;
    } else if e >= 134 {
        if e - 134 > 16 {
            proof {
                lemma2_to64();
                if e - 134 > 17 {
                    lemma_pow2_strictly_increases(17, (e - 134) as nat);
                }
                let p = pow2((e - 134) as nat);
                assert(m * p >= 0x80_0000 * 0x2_0000) by (nonlinear_arith)
                    requires
                        m >= 0x80_0000,
                        p >= 0x2_0000,
                ;
            }
            return None;
        }
        let p = pow2_u64(e - 134);
        proof {
            lemma2_to64();
            if e - 134 < 16 {
                lemma_pow2_strictly_increases((e - 134) as nat, 16);
            }
            assert(m * p <= 0x100_0000 * 0x1_0000) by (nonlinear_arith)
                requires
                    m < 0x100_0000,
                    p <= 0x1_0000,
            ;
        }
        mag = m * p;
        if mag >= 0x100_0000_0000 {
            return None;
        }
    } else if 134 - e >= 24 {
        proof {
            lemma2_to64();
            if 134 - e > 24 {
                lemma_pow2_strictly_increases(24, (134 - e) as nat);
            }
            vstd::arithmetic::div_mod::lemma_basic_div(m as int, pow2((134 - e) as nat) as int);
        }
        mag = 0;
    } else {
        let p = pow2_u64(134 - e);
        mag = m / p;
    }
    if bits >= 0x8000_0000 {
        Some(-(mag as i64))
    } else {
        Some(mag as i64)
    }
}

} // verus!
