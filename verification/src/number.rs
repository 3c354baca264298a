//! Numbers and what can be decided from their representation alone.
//!
//! A number is an IEEE 754 binary64 value, held as its 64-bit pattern: one
//! sign bit, eleven exponent bits, fifty-two fraction bits. Sign, order, zero
//! test, truncation and whether the number is an integer are exact on that
//! pattern and are computed here.
//! Arithmetic that rounds, and conversion from and to decimal text, are the
//! host's work (see [`crate::interpreter::NumberRequest`]).

use vstd::prelude::*;

verus! {

/// The sign bit.
pub const SIGN_BIT: u64 = 0x8000_0000_0000_0000;

/// Every bit but the sign.
pub const MAGNITUDE_MASK: u64 = 0x7FFF_FFFF_FFFF_FFFF;

/// The pattern of positive infinity; a larger magnitude is not a number.
pub const INFINITY_BITS: u64 = 0x7FF0_0000_0000_0000;

/// The pattern of the tolerance of equality, the binary64 value nearest to 1e-10.
pub const TOLERANCE_BITS: u64 = 0x3DDB_7CDF_D9D7_BDBB;

/// The fifty-two fraction bits.
pub const FRACTION_MASK: u64 = 0x000F_FFFF_FFFF_FFFF;

/// The leading one of a normal significand.
pub const HIDDEN_BIT: u64 = 0x0010_0000_0000_0000;

/// The pattern with the sign cleared: the absolute value.
pub open spec fn spec_magnitude(bits: u64) -> u64 {
    bits & MAGNITUDE_MASK
}

/// Whether the sign bit is set.
pub open spec fn spec_is_negative(bits: u64) -> bool {
    bits & SIGN_BIT != 0
}

/// Whether the pattern is not a number.
pub open spec fn spec_is_nan(bits: u64) -> bool {
    spec_magnitude(bits) > INFINITY_BITS
}

/// Whether the pattern is positive or negative zero.
pub open spec fn spec_is_zero(bits: u64) -> bool {
    spec_magnitude(bits) == 0
}

/// An integer that orders the patterns that are numbers as their values are
/// ordered: the magnitude, negated under a set sign. Both zeros map to 0.
pub open spec fn order_key(bits: u64) -> int {
    if spec_is_negative(bits) {
        -(spec_magnitude(bits) as int)
    } else {
        spec_magnitude(bits) as int
    }
}

/// `a < b` on numbers: false when either side is not a number.
pub open spec fn spec_less(a: u64, b: u64) -> bool {
    !spec_is_nan(a) && !spec_is_nan(b) && order_key(a) < order_key(b)
}

/// `a <= b` on numbers: false when either side is not a number.
pub open spec fn spec_less_eq(a: u64, b: u64) -> bool {
    !spec_is_nan(a) && !spec_is_nan(b) && order_key(a) <= order_key(b)
}

/// The pattern with the sign flipped.
pub open spec fn spec_negate(bits: u64) -> u64 {
    bits ^ SIGN_BIT
}

/// Whether the absolute value is below the tolerance of equality.
pub open spec fn spec_near_zero(bits: u64) -> bool {
    spec_magnitude(bits) < TOLERANCE_BITS
}

/// The biased exponent field.
pub open spec fn spec_exponent(bits: u64) -> u64 {
    (bits >> 52) & 0x7FF
}

/// The significand of a normal number, with its leading one.
pub open spec fn spec_significand(bits: u64) -> u64 {
    (bits & FRACTION_MASK) | HIDDEN_BIT
}

/// The integer part of the absolute value, for an exponent field from 1023
/// (values from 1) up to 1085 (values below 2^63).
pub open spec fn spec_integer_part(bits: u64) -> u64 {
    let e = spec_exponent(bits);
    let sig = spec_significand(bits);
    if e >= 1075 {
        sig << ((e - 1075) as u64)
    } else {
        sig >> ((1075 - e) as u64)
    }
}

/// The number truncated toward zero to a 64-bit integer: 0 for what is not a
/// number, the nearest bound for what lies outside the integer's range.
pub open spec fn spec_truncate(bits: u64) -> i64 {
    let e = spec_exponent(bits);
    if spec_is_nan(bits) || e < 1023 {
        0
    } else if e >= 1086 {
        if spec_is_negative(bits) {
            i64::MIN
        } else {
            i64::MAX
        }
    } else if spec_is_negative(bits) {
        (-(spec_integer_part(bits) as int)) as i64
    } else {
        spec_integer_part(bits) as i64
    }
}

/// The number without its fractional part, as a number: what lies below
/// one in absolute value becomes a zero of the same sign, and what has no
/// fraction bits left, or is no number, stays.
pub open spec fn spec_whole(bits: u64) -> u64 {
    let e = spec_exponent(bits);
    if e < 1023 {
        bits & SIGN_BIT
    } else if e >= 1075 {
        bits
    } else {
        bits & (0xFFFF_FFFF_FFFF_FFFFu64 << ((1075 - e) as u64))
    }
}

/// Whether the number is an integer that a 64-bit integer holds: it is
/// below 2^63 in absolute value and is its own whole part.
pub open spec fn spec_is_integer(bits: u64) -> bool {
    spec_exponent(bits) < 1086 && spec_whole(bits) == bits
}

/// Whether the number is at least 2^63 in absolute value, or is no
/// finite number at all: truncation to 64 bits has lost it.
pub open spec fn spec_is_beyond_integers(bits: u64) -> bool {
    spec_exponent(bits) >= 1086
}

/// Whether the number is finite and at least 2^63 in absolute value. Such
/// a number is an integer: its significand doubled as often as its
/// exponent field exceeds 1075.
pub open spec fn spec_is_large_integer(bits: u64) -> bool {
    1086 <= spec_exponent(bits) < 2047
}

/// The pattern with the sign cleared: the absolute value.
#[verifier::when_used_as_spec(spec_magnitude)]
pub fn magnitude(bits: u64) -> (r: u64)
    ensures
        r == spec_magnitude(bits),
{
    bits & MAGNITUDE_MASK
}

/// Whether the sign bit is set.
#[verifier::when_used_as_spec(spec_is_negative)]
pub fn is_negative(bits: u64) -> (r: bool)
    ensures
        r == spec_is_negative(bits),
{
    bits & SIGN_BIT != 0
}

/// Whether the pattern is not a number.
#[verifier::when_used_as_spec(spec_is_nan)]
pub fn is_nan(bits: u64) -> (r: bool)
    ensures
        r == spec_is_nan(bits),
{
    magnitude(bits) > INFINITY_BITS
}

/// Whether the pattern is positive or negative zero.
#[verifier::when_used_as_spec(spec_is_zero)]
pub fn is_zero(bits: u64) -> (r: bool)
    ensures
        r == spec_is_zero(bits),
{
    magnitude(bits) == 0
}

/// `a < b` on numbers.
#[verifier::when_used_as_spec(spec_less)]
pub fn less(a: u64, b: u64) -> (r: bool)
    ensures
        r == spec_less(a, b),
{
    if is_nan(a) || is_nan(b) {
        return false;
    }
    let ma = magnitude(a);
    let mb = magnitude(b);
    if is_negative(a) {
        if is_negative(b) {
            mb < ma
        } else {
            ma != 0 || mb != 0
        }
    } else {
        if is_negative(b) {
            false
        } else {
            ma < mb
        }
    }
}

/// `a <= b` on numbers.
#[verifier::when_used_as_spec(spec_less_eq)]
pub fn less_eq(a: u64, b: u64) -> (r: bool)
    ensures
        r == spec_less_eq(a, b),
{
    if is_nan(a) || is_nan(b) {
        return false;
    }
    let ma = magnitude(a);
    let mb = magnitude(b);
    if is_negative(a) {
        if is_negative(b) {
            mb <= ma
        } else {
            true
        }
    } else {
        if is_negative(b) {
            ma == 0 && mb == 0
        } else {
            ma <= mb
        }
    }
}

/// The pattern with the sign flipped.
#[verifier::when_used_as_spec(spec_negate)]
pub fn negate(bits: u64) -> (r: u64)
    ensures
        r == spec_negate(bits),
{
    bits ^ SIGN_BIT
}

/// Whether the absolute value is below the tolerance of equality.
#[verifier::when_used_as_spec(spec_near_zero)]
pub fn near_zero(bits: u64) -> (r: bool)
    ensures
        r == spec_near_zero(bits),
{
    magnitude(bits) < TOLERANCE_BITS
}

/// The number truncated toward zero to a 64-bit integer.
#[verifier::when_used_as_spec(spec_truncate)]
pub fn truncate(bits: u64) -> (r: i64)
    ensures
        r == spec_truncate(bits),
{
    let e: u64 = (bits >> 52) & 0x7FF;
    assert(((bits >> 52) & 0x7FF) <= 0x7FF) by (bit_vector);
    if is_nan(bits) || e < 1023 {
        return 0;
    }
    if e >= 1086 {
        if is_negative(bits) {
            return i64::MIN;
        } else {
            return i64::MAX;
        }
    }
    let sig: u64 = (bits & FRACTION_MASK) | HIDDEN_BIT;
    let part: u64 = if e >= 1075 {
        let k: u64 = e - 1075;
        assert(k <= 10 ==> ((((bits & 0x000F_FFFF_FFFF_FFFF) | 0x0010_0000_0000_0000) << k)
            < 0x8000_0000_0000_0000)) by (bit_vector);
        sig << k
    } else {
        let k: u64 = 1075 - e;
        assert(k <= 52 ==> ((((bits & 0x000F_FFFF_FFFF_FFFF) | 0x0010_0000_0000_0000) >> k)
            < 0x8000_0000_0000_0000)) by (bit_vector);
        sig >> k
    };
    if is_negative(bits) {
        -(part as i64)
    } else {
        part as i64
    }
}

/// The number without its fractional part, as a number.
#[verifier::when_used_as_spec(spec_whole)]
pub fn whole(bits: u64) -> (r: u64)
    ensures
        r == spec_whole(bits),
{
    let e: u64 = (bits >> 52) & 0x7FF;
    if e < 1023 {
        bits & SIGN_BIT
    } else if e >= 1075 {
        bits
    } else {
        let k: u64 = 1075 - e;
        bits & (0xFFFF_FFFF_FFFF_FFFFu64 << k)
    }
}

/// Whether the number is an integer that a 64-bit integer holds.
#[verifier::when_used_as_spec(spec_is_integer)]
pub fn is_integer(bits: u64) -> (r: bool)
    ensures
        r == spec_is_integer(bits),
{
    let e: u64 = (bits >> 52) & 0x7FF;
    e < 1086 && whole(bits) == bits
}

/// Whether the number is finite and at least 2^63 in absolute value.
#[verifier::when_used_as_spec(spec_is_large_integer)]
pub fn is_large_integer(bits: u64) -> (r: bool)
    ensures
        r == spec_is_large_integer(bits),
{
    let e: u64 = (bits >> 52) & 0x7FF;
    1086 <= e && e < 2047
}

/// The biased exponent field.
#[verifier::when_used_as_spec(spec_exponent)]
pub fn exponent(bits: u64) -> (r: u64)
    ensures
        r == spec_exponent(bits),
        r <= 2047,
{
    assert(((bits >> 52) & 0x7FF) <= 0x7FF) by (bit_vector);
    (bits >> 52) & 0x7FF
}

/// The significand of a normal number, with its leading one.
#[verifier::when_used_as_spec(spec_significand)]
pub fn significand(bits: u64) -> (r: u64)
    ensures
        r == spec_significand(bits),
{
    (bits & FRACTION_MASK) | HIDDEN_BIT
}

/// Whether truncation to 64 bits has lost the number.
#[verifier::when_used_as_spec(spec_is_beyond_integers)]
pub fn is_beyond_integers(bits: u64) -> (r: bool)
    ensures
        r == spec_is_beyond_integers(bits),
{
    let e: u64 = (bits >> 52) & 0x7FF;
    e >= 1086
}

/// The whole part of a number keeps the number's sign.
pub proof fn law_whole_keeps_sign(bits: u64)
    ensures
        spec_is_negative(spec_whole(bits)) == spec_is_negative(bits),
{
    let e = spec_exponent(bits);
    if e >= 1023 && e < 1075 {
        let k = (1075 - e) as u64;
        assert(1 <= k <= 52 ==> ((bits & (0xFFFF_FFFF_FFFF_FFFFu64 << k)) & 0x8000_0000_0000_0000)
            == (bits & 0x8000_0000_0000_0000)) by (bit_vector);
    } else if e < 1023 {
        assert(((bits & 0x8000_0000_0000_0000) & 0x8000_0000_0000_0000) == (bits
            & 0x8000_0000_0000_0000)) by (bit_vector);
    }
}

/// The whole part of a number has no fractional part: it is its own whole
/// part.
pub proof fn law_whole_is_whole(bits: u64)
    ensures
        spec_whole(spec_whole(bits)) == spec_whole(bits),
{
    let e = spec_exponent(bits);
    if e >= 1023 && e < 1075 {
        let k = (1075 - e) as u64;
        let w = spec_whole(bits);
        assert(1 <= k <= 52 ==> ((bits & (0xFFFF_FFFF_FFFF_FFFFu64 << k)) >> 52) & 0x7FF == (bits
            >> 52) & 0x7FF) by (bit_vector);
        assert((bits & (0xFFFF_FFFF_FFFF_FFFFu64 << k)) & (0xFFFF_FFFF_FFFF_FFFFu64 << k) == bits
            & (0xFFFF_FFFF_FFFF_FFFFu64 << k)) by (bit_vector);
    } else if e < 1023 {
        assert(((bits & 0x8000_0000_0000_0000) >> 52) & 0x7FF == 0) by (bit_vector);
        assert(((bits & 0x8000_0000_0000_0000) & 0x8000_0000_0000_0000) == (bits
            & 0x8000_0000_0000_0000)) by (bit_vector);
    }
}

/// Truncation looks at the whole part only.
pub proof fn law_truncate_of_whole(bits: u64)
    ensures
        spec_truncate(spec_whole(bits)) == spec_truncate(bits),
{
    let e = spec_exponent(bits);
    law_whole_keeps_sign(bits);
    if e >= 1023 && e < 1075 {
        let k = (1075 - e) as u64;
        assert(1 <= k <= 52 ==> ((bits & (0xFFFF_FFFF_FFFF_FFFFu64 << k)) >> 52) & 0x7FF == (bits
            >> 52) & 0x7FF) by (bit_vector);
        assert(1 <= k <= 52 ==> ((((bits & (0xFFFF_FFFF_FFFF_FFFFu64 << k))
            & 0x000F_FFFF_FFFF_FFFF) | 0x0010_0000_0000_0000) >> k) == (((bits
            & 0x000F_FFFF_FFFF_FFFF) | 0x0010_0000_0000_0000) >> k)) by (bit_vector);
        assert(1 <= k <= 52 && (bits >> 52) & 0x7FF < 0x7FF ==> ((bits & (0xFFFF_FFFF_FFFF_FFFFu64
            << k)) & 0x7FFF_FFFF_FFFF_FFFF) <= 0x7FF0_0000_0000_0000) by (bit_vector);
        assert((bits >> 52) & 0x7FF < 0x7FF ==> (bits & 0x7FFF_FFFF_FFFF_FFFF)
            <= 0x7FF0_0000_0000_0000) by (bit_vector);
    } else if e < 1023 {
        assert(((bits & 0x8000_0000_0000_0000) >> 52) & 0x7FF == 0) by (bit_vector);
        assert((bits & 0x8000_0000_0000_0000) & 0x7FFF_FFFF_FFFF_FFFF == 0) by (bit_vector);
    }
}

} // verus!
