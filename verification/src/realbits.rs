use vstd::prelude::*;

verus! {

/// The sign bit of an IEEE-754 binary64 bit pattern.
pub open spec fn sign_bits(x: u64) -> u64 {
    x >> 63
}

/// The 11-bit exponent field of an IEEE-754 binary64 bit pattern.
pub open spec fn exp_bits(x: u64) -> u64 {
    (x >> 52) & 0x7ff
}

/// The 52-bit fraction field of an IEEE-754 binary64 bit pattern.
pub open spec fn frac_bits(x: u64) -> u64 {
    x & 0xf_ffff_ffff_ffff
}

/// The magnitude (all bits but the sign) of a binary64 bit pattern.
pub open spec fn magnitude_bits(x: u64) -> u64 {
    x & 0x7fff_ffff_ffff_ffff
}

/// Whether the pattern is a NaN: exponent all ones, fraction nonzero.
pub open spec fn is_nan_bits(x: u64) -> bool {
    exp_bits(x) == 0x7ff && frac_bits(x) != 0
}

/// Whether the pattern is a zero (either sign).
pub open spec fn is_zero_bits(x: u64) -> bool {
    magnitude_bits(x) == 0
}

/// The IEEE-754 `<` relation on binary64 values, stated on bit patterns:
/// false whenever either side is NaN, the two zeros are equal, and
/// otherwise sign-magnitude order.
pub open spec fn lt_bits(a: u64, b: u64) -> bool {
    if is_nan_bits(a) || is_nan_bits(b) {
        false
    } else if is_zero_bits(a) && is_zero_bits(b) {
        false
    } else if sign_bits(a) != sign_bits(b) {
        sign_bits(a) == 1
    } else if sign_bits(a) == 0 {
        magnitude_bits(a) < magnitude_bits(b)
    } else {
        magnitude_bits(b) < magnitude_bits(a)
    }
}

/// The IEEE-754 `==` relation on binary64 values, stated on bit patterns:
/// false whenever either side is NaN; the two zeros are equal.
pub open spec fn eq_bits(a: u64, b: u64) -> bool {
    if is_nan_bits(a) || is_nan_bits(b) {
        false
    } else {
        a == b || (is_zero_bits(a) && is_zero_bits(b))
    }
}

/// The IEEE-754 `<=` relation on binary64 values, stated on bit patterns.
pub open spec fn le_bits(a: u64, b: u64) -> bool {
    lt_bits(a, b) || eq_bits(a, b)
}

/// Compares two binary64 bit patterns as the values they stand for,
/// exactly as `<` orders 64-bit floating-point values.
pub fn real_lt(a: u64, b: u64) -> (r: bool)
    ensures
        r == lt_bits(a, b),
{
    let ea: u64 = (a >> 52) & 0x7ff;
    let eb: u64 = (b >> 52) & 0x7ff;
    let fa: u64 = a & 0xf_ffff_ffff_ffff;
    let fb: u64 = b & 0xf_ffff_ffff_ffff;
    let ma: u64 = a & 0x7fff_ffff_ffff_ffff;
    let mb: u64 = b & 0x7fff_ffff_ffff_ffff;
    if (ea == 0x7ff && fa != 0) || (eb == 0x7ff && fb != 0) {
        false
    } else if ma == 0 && mb == 0 {
        false
    } else if (a >> 63) != (b >> 63) {
        (a >> 63) == 1
    } else if (a >> 63) == 0 {
        ma < mb
    } else {
        mb < ma
    }
}

/// Compares two binary64 bit patterns as the values they stand for,
/// exactly as `<=` orders 64-bit floating-point values.
pub fn real_le(a: u64, b: u64) -> (r: bool)
    ensures
        r == le_bits(a, b),
{
    let ea: u64 = (a >> 52) & 0x7ff;
    let eb: u64 = (b >> 52) & 0x7ff;
    let fa: u64 = a & 0xf_ffff_ffff_ffff;
    let fb: u64 = b & 0xf_ffff_ffff_ffff;
    let ma: u64 = a & 0x7fff_ffff_ffff_ffff;
    let mb: u64 = b & 0x7fff_ffff_ffff_ffff;
    if (ea == 0x7ff && fa != 0) || (eb == 0x7ff && fb != 0) {
        false
    } else if ma == 0 && mb == 0 {
        true
    } else if a == b {
        true
    } else if (a >> 63) != (b >> 63) {
        (a >> 63) == 1
    } else if (a >> 63) == 0 {
        ma < mb
    } else {
        mb < ma
    }
}

/// The negation of a binary64 value on bit patterns: the sign bit flipped.
pub open spec fn neg_bits(x: u64) -> u64 {
    x ^ 0x8000_0000_0000_0000
}

/// Flips the sign bit: exactly what negating a 64-bit floating-point
/// value does to its bit pattern.
pub fn real_neg(x: u64) -> (r: u64)
    ensures
        r == neg_bits(x),
{
    x ^ 0x8000_0000_0000_0000
}

/// Half of a binary64 value, on bit patterns. For a value of exponent
/// field two or above this decrements the exponent, exactly. A value with
/// exponent field one or zero halves into the subnormal range: its 53
/// significand bits are shifted right once, rounding to nearest, ties to
/// even. NaN and infinity patterns are returned unchanged.
pub open spec fn half_bits(x: u64) -> u64 {
    if exp_bits(x) == 0x7ff {
        x
    } else if exp_bits(x) >= 2 {
        (x - 0x10_0000_0000_0000) as u64
    } else {
        let m = x & 0x1f_ffff_ffff_ffff;
        let i = m >> 1;
        (sign_bits(x) << 63) | ((i + (i & m & 1)) as u64)
    }
}

/// Halves a binary64 value given as its bit pattern, as `half_bits`
/// states: exact for every finite value except that a halving into the
/// subnormal range rounds to nearest, ties to even; NaN and infinity stay
/// unchanged.
pub fn real_half(x: u64) -> (r: u64)
    ensures
        r == half_bits(x),
{
    let e: u64 = (x >> 52) & 0x7ff;
    if e == 0x7ff {
        x
    } else if e >= 2 {
        proof {
            assert(x >= 0x10_0000_0000_0000) by (bit_vector)
                requires
                    (x >> 52) & 0x7ff >= 2,
            ;
        }
        x - 0x10_0000_0000_0000
    } else {
        let m: u64 = x & 0x1f_ffff_ffff_ffff;
        let i: u64 = m >> 1;
        proof {
            assert(x & 0x1f_ffff_ffff_ffff < 0x20_0000_0000_0000) by (bit_vector);
            assert(m >> 1 < 0x10_0000_0000_0000) by (bit_vector)
                requires
                    m < 0x20_0000_0000_0000,
            ;
            assert((m >> 1) & m & 1 <= 1) by (bit_vector);
        }
        ((x >> 63) << 63) | (i + (i & m & 1))
    }
}

} // verus!
