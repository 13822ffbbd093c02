//! IEEE-754 binary32 values carried as their bit patterns.
//!
//! The track files author coordinates and widths as binary32 numbers. The
//! rules that only compare such numbers for equality or check their sign are
//! decided here, exactly, on the bit patterns.

use vstd::prelude::*;

verus! {

/// Sign bit of a binary32 pattern.
pub const SIGN_MASK: u32 = 0x8000_0000;

/// Exponent field of a binary32 pattern.
pub const EXPONENT_MASK: u32 = 0x7f80_0000;

/// Fraction field of a binary32 pattern.
pub const FRACTION_MASK: u32 = 0x007f_ffff;

/// The pattern encodes a NaN: all exponent bits set, fraction non-zero.
pub open spec fn is_nan(bits: u32) -> bool {
    bits & EXPONENT_MASK == EXPONENT_MASK && bits & FRACTION_MASK != 0
}

/// The pattern encodes +0 or -0.
pub open spec fn is_zero(bits: u32) -> bool {
    bits & !SIGN_MASK == 0
}

/// IEEE equality of the encoded values: NaN equals nothing, the two zeros
/// are equal, every other value equals only itself.
pub open spec fn float_eq(a: u32, b: u32) -> bool {
    (a == b && !is_nan(a)) || (is_zero(a) && is_zero(b))
}

/// The encoded value is finite and strictly greater than zero: sign clear,
/// exponent not all ones, and not +0.
pub open spec fn is_positive_finite(bits: u32) -> bool {
    bits & SIGN_MASK == 0 && bits & EXPONENT_MASK != EXPONENT_MASK && bits != 0
}

/// Executable IEEE equality on bit patterns.
pub fn bits_eq(a: u32, b: u32) -> (r: bool)
    ensures
        r == float_eq(a, b),
{
    let a_nan = a & EXPONENT_MASK == EXPONENT_MASK && a & FRACTION_MASK != 0;
    let both_zero = a & !SIGN_MASK == 0 && b & !SIGN_MASK == 0;
    (a == b && !a_nan) || both_zero
}

/// Executable test that the encoded value is finite and positive.
pub fn bits_positive_finite(bits: u32) -> (r: bool)
    ensures
        r == is_positive_finite(bits),
{
    bits & SIGN_MASK == 0 && bits & EXPONENT_MASK != EXPONENT_MASK && bits != 0
}


/// The encoded value as a signed magnitude. On values that are not NaN the
/// order of these integers is the order of the encoded numbers: magnitudes
/// of one sign grow with the pattern, and the two zeros meet at 0.
pub open spec fn signed_magnitude(bits: u32) -> int {
    let m = (bits & !SIGN_MASK) as int;
    if bits & SIGN_MASK != 0 {
        -m
    } else {
        m
    }
}

/// IEEE `<` on encoded values: false when either is NaN.
pub open spec fn float_lt(a: u32, b: u32) -> bool {
    !is_nan(a) && !is_nan(b) && signed_magnitude(a) < signed_magnitude(b)
}

/// Executable IEEE `<` on bit patterns.
pub fn bits_lt(a: u32, b: u32) -> (r: bool)
    ensures
        r == float_lt(a, b),
{
    let a_nan = a & EXPONENT_MASK == EXPONENT_MASK && a & FRACTION_MASK != 0;
    let b_nan = b & EXPONENT_MASK == EXPONENT_MASK && b & FRACTION_MASK != 0;
    let ma = (a & !SIGN_MASK) as i64;
    let mb = (b & !SIGN_MASK) as i64;
    let sa = if a & SIGN_MASK != 0 {
        -ma
    } else {
        ma
    };
    let sb = if b & SIGN_MASK != 0 {
        -mb
    } else {
        mb
    };
    !a_nan && !b_nan && sa < sb
}

/// Among positive finite values, `<` is the order of the patterns read as
/// unsigned integers.
pub proof fn positive_values_order_as_patterns(a: u32, b: u32)
    requires
        is_positive_finite(a),
        is_positive_finite(b),
    ensures
        float_lt(a, b) == (a < b),
{
    assert(a & 0x8000_0000u32 == 0 ==> a & !0x8000_0000u32 == a) by (bit_vector);
    assert(b & 0x8000_0000u32 == 0 ==> b & !0x8000_0000u32 == b) by (bit_vector);
    assert(a & 0x7f80_0000u32 != 0x7f80_0000u32 ==> !(a & 0x7f80_0000u32 == 0x7f80_0000u32 && a
        & 0x007f_ffffu32 != 0)) by (bit_vector);
    assert(b & 0x7f80_0000u32 != 0x7f80_0000u32 ==> !(b & 0x7f80_0000u32 == 0x7f80_0000u32 && b
        & 0x007f_ffffu32 != 0)) by (bit_vector);
}

} // verus!
