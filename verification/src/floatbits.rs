//! An exact integer model of IEEE 754 comparisons on stored bit
//! patterns.
//!
//! Sampled densities cross this library's boundary as the bit patterns
//! of the doubles they are, so that the decisions taken on them — biome
//! thresholds, spline interval search — verify exactly.  A non-NaN
//! float's order is the order of a signed key derived from its bits:
//! the magnitude, negated for negative values.  The two zeroes share
//! the key 0, and any comparison against a NaN is false, exactly as the
//! hardware comparisons behave.

use vstd::prelude::*;

verus! {

/// Whether a `f64` bit pattern is a NaN: exponent all ones, fraction
/// nonzero.
pub open spec fn f64_is_nan(bits: u64) -> bool {
    (bits & 0x7FF0_0000_0000_0000) == 0x7FF0_0000_0000_0000 && (bits & 0x000F_FFFF_FFFF_FFFF) != 0
}

/// The order key of a `f64` bit pattern: magnitude, negated when the
/// sign bit is set.  Keys order non-NaN doubles exactly as `<` does,
/// with both zeroes at key 0.
pub open spec fn f64_key(bits: u64) -> int {
    if bits >= 0x8000_0000_0000_0000 {
        -((bits & 0x7FFF_FFFF_FFFF_FFFF) as int)
    } else {
        bits as int
    }
}

/// What `a < b` is for the doubles the bit patterns encode.
pub open spec fn f64_lt(a: u64, b: u64) -> bool {
    !f64_is_nan(a) && !f64_is_nan(b) && f64_key(a) < f64_key(b)
}

/// What `a <= b` is for the doubles the bit patterns encode.
pub open spec fn f64_le(a: u64, b: u64) -> bool {
    !f64_is_nan(a) && !f64_is_nan(b) && f64_key(a) <= f64_key(b)
}

/// Decides [`f64_lt`] on bit patterns.
pub fn f64_bits_lt(a: u64, b: u64) -> (r: bool)
    ensures
        r == f64_lt(a, b),
{
    if f64_bits_is_nan(a) || f64_bits_is_nan(b) {
        return false;
    }
    let sa = a >> 63;
    let sb = b >> 63;
    let ma = a & 0x7FFF_FFFF_FFFF_FFFF;
    let mb = b & 0x7FFF_FFFF_FFFF_FFFF;
    proof {
        assert((a >> 63) == 1 <==> a >= 0x8000_0000_0000_0000) by (bit_vector);
        assert((a >> 63) == 0 <==> a < 0x8000_0000_0000_0000) by (bit_vector);
        assert((b >> 63) == 1 <==> b >= 0x8000_0000_0000_0000) by (bit_vector);
        assert((b >> 63) == 0 <==> b < 0x8000_0000_0000_0000) by (bit_vector);
        assert(a < 0x8000_0000_0000_0000 ==> (a & 0x7FFF_FFFF_FFFF_FFFF) == a) by (bit_vector);
        assert(b < 0x8000_0000_0000_0000 ==> (b & 0x7FFF_FFFF_FFFF_FFFF) == b) by (bit_vector);
    }
    if sa == sb {
        if sa == 0 {
            ma < mb
        } else {
            mb < ma
        }
    } else if sa == 1 {
        ma != 0 || mb != 0
    } else {
        false
    }
}

/// Decides [`f64_le`] on bit patterns.
pub fn f64_bits_le(a: u64, b: u64) -> (r: bool)
    ensures
        r == f64_le(a, b),
{
    if f64_bits_is_nan(a) || f64_bits_is_nan(b) {
        return false;
    }
    !f64_bits_lt(b, a)
}

/// Decides [`f64_is_nan`] on a bit pattern.
pub fn f64_bits_is_nan(bits: u64) -> (r: bool)
    ensures
        r == f64_is_nan(bits),
{
    (bits & 0x7FF0_0000_0000_0000) == 0x7FF0_0000_0000_0000 && (bits & 0x000F_FFFF_FFFF_FFFF) != 0
}

/// Whether a `f32` bit pattern is a NaN.
pub open spec fn f32_is_nan(bits: u32) -> bool {
    (bits & 0x7F80_0000) == 0x7F80_0000 && (bits & 0x007F_FFFF) != 0
}

/// The order key of a `f32` bit pattern.
pub open spec fn f32_key(bits: u32) -> int {
    if bits >= 0x8000_0000 {
        -((bits & 0x7FFF_FFFF) as int)
    } else {
        bits as int
    }
}

/// What `a < b` is for the floats the bit patterns encode.
pub open spec fn f32_lt(a: u32, b: u32) -> bool {
    !f32_is_nan(a) && !f32_is_nan(b) && f32_key(a) < f32_key(b)
}

/// Decides [`f32_is_nan`] on a bit pattern.
pub fn f32_bits_is_nan(bits: u32) -> (r: bool)
    ensures
        r == f32_is_nan(bits),
{
    (bits & 0x7F80_0000) == 0x7F80_0000 && (bits & 0x007F_FFFF) != 0
}

/// Decides [`f32_lt`] on bit patterns.
pub fn f32_bits_lt(a: u32, b: u32) -> (r: bool)
    ensures
        r == f32_lt(a, b),
{
    if f32_bits_is_nan(a) || f32_bits_is_nan(b) {
        return false;
    }
    let sa = a >> 31;
    let sb = b >> 31;
    let ma = a & 0x7FFF_FFFF;
    let mb = b & 0x7FFF_FFFF;
    proof {
        assert((a >> 31) == 1 <==> a >= 0x8000_0000) by (bit_vector);
        assert((a >> 31) == 0 <==> a < 0x8000_0000) by (bit_vector);
        assert((b >> 31) == 1 <==> b >= 0x8000_0000) by (bit_vector);
        assert((b >> 31) == 0 <==> b < 0x8000_0000) by (bit_vector);
        assert(a < 0x8000_0000 ==> (a & 0x7FFF_FFFF) == a) by (bit_vector);
        assert(b < 0x8000_0000 ==> (b & 0x7FFF_FFFF) == b) by (bit_vector);
    }
    if sa == sb {
        if sa == 0 {
            ma < mb
        } else {
            mb < ma
        }
    } else if sa == 1 {
        ma != 0 || mb != 0
    } else {
        false
    }
}

} // verus!
