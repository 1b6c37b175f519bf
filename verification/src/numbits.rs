//! IEEE-754 double-precision values, handled by their 64-bit patterns.
//!
//! A Lox number is a double. The library stores the raw bit pattern and
//! computes equality, ordering and negation on it directly:
//!
//! - a pattern is a NaN when the exponent field is all ones and the mantissa
//!   is not zero; a NaN compares unequal to everything, itself included;
//! - the two zero patterns (`+0.0` and `-0.0`) are equal and neither is less
//!   than the other;
//! - every other value has exactly one pattern, and its order follows the
//!   sign bit and, within one sign, the magnitude bits;
//! - negation flips the sign bit.

use vstd::prelude::*;

verus! {

/// The sign bit of a double's bit pattern.
pub const SIGN_BIT: u64 = 0x8000_0000_0000_0000;

/// The magnitude bits (exponent and mantissa) of a double's bit pattern.
pub const MAG_MASK: u64 = 0x7fff_ffff_ffff_ffff;

/// The exponent field of a double's bit pattern.
pub const EXP_MASK: u64 = 0x7ff0_0000_0000_0000;

/// The mantissa field of a double's bit pattern.
pub const MAN_MASK: u64 = 0x000f_ffff_ffff_ffff;

/// Whether the pattern denotes a NaN: exponent all ones, mantissa not zero.
pub open spec fn spec_is_nan(b: u64) -> bool {
    b & EXP_MASK == EXP_MASK && b & MAN_MASK != 0
}

/// Whether the pattern denotes a zero (either sign).
pub open spec fn spec_is_zero(b: u64) -> bool {
    b & MAG_MASK == 0
}

/// IEEE-754 equality of two patterns: false when either is a NaN, true for
/// any two zeros, and pattern identity otherwise.
pub open spec fn spec_num_eq(a: u64, b: u64) -> bool {
    &&& !spec_is_nan(a)
    &&& !spec_is_nan(b)
    &&& (a == b || (spec_is_zero(a) && spec_is_zero(b)))
}

/// A monotone reshuffle of the pattern: negative values are mapped by bitwise
/// complement and others get the high bit set, so that the unsigned order of
/// the images agrees with the order of the doubles (zeros excepted).
pub open spec fn spec_order_key(a: u64) -> u64 {
    if a & SIGN_BIT != 0 {
        !a
    } else {
        a | SIGN_BIT
    }
}

/// IEEE-754 `<` on two patterns: false when either is a NaN or both are
/// zeros, and the order of the reshuffled patterns otherwise.
pub open spec fn spec_num_lt(a: u64, b: u64) -> bool {
    &&& !spec_is_nan(a)
    &&& !spec_is_nan(b)
    &&& !(spec_is_zero(a) && spec_is_zero(b))
    &&& spec_order_key(a) < spec_order_key(b)
}

/// IEEE-754 `<=` on two patterns.
pub open spec fn spec_num_le(a: u64, b: u64) -> bool {
    spec_num_eq(a, b) || spec_num_lt(a, b)
}

/// The pattern of the negated double: the sign bit flipped.
pub open spec fn spec_num_neg(a: u64) -> u64 {
    a ^ SIGN_BIT
}

/// Whether the pattern denotes a NaN.
pub fn is_nan_bits(b: u64) -> (r: bool)
    ensures
        r == spec_is_nan(b),
{
    b & EXP_MASK == EXP_MASK && b & MAN_MASK != 0
}

/// Whether the pattern denotes a zero of either sign.
pub fn is_zero_bits(b: u64) -> (r: bool)
    ensures
        r == spec_is_zero(b),
{
    b & MAG_MASK == 0
}

/// IEEE-754 equality on two patterns.
pub fn num_eq_bits(a: u64, b: u64) -> (r: bool)
    ensures
        r == spec_num_eq(a, b),
{
    !is_nan_bits(a) && !is_nan_bits(b) && (a == b || (is_zero_bits(a) && is_zero_bits(b)))
}

/// IEEE-754 `<` on two patterns.
pub fn num_lt_bits(a: u64, b: u64) -> (r: bool)
    ensures
        r == spec_num_lt(a, b),
{
    if is_nan_bits(a) || is_nan_bits(b) {
        return false;
    }
    if is_zero_bits(a) && is_zero_bits(b) {
        return false;
    }
    let ka: u64 = if a & SIGN_BIT != 0 { !a } else { a | SIGN_BIT };
    let kb: u64 = if b & SIGN_BIT != 0 { !b } else { b | SIGN_BIT };
    ka < kb
}

/// IEEE-754 `<=` on two patterns.
pub fn num_le_bits(a: u64, b: u64) -> (r: bool)
    ensures
        r == spec_num_le(a, b),
{
    num_eq_bits(a, b) || num_lt_bits(a, b)
}

/// The pattern of the negated double.
pub fn num_neg_bits(a: u64) -> (r: u64)
    ensures
        r == spec_num_neg(a),
{
    a ^ SIGN_BIT
}

/// Number equality is symmetric in its arguments.
pub proof fn lemma_num_eq_symmetric(a: u64, b: u64)
    ensures
        spec_num_eq(a, b) == spec_num_eq(b, a),
{
}

/// Every pattern that is not a NaN equals itself.
pub proof fn lemma_num_eq_reflexive(a: u64)
    requires
        !spec_is_nan(a),
    ensures
        spec_num_eq(a, a),
{
}

/// A pattern is never less than itself, and `<` holds in at most one
/// direction.
pub proof fn lemma_num_lt_asymmetric(a: u64, b: u64)
    ensures
        !(spec_num_lt(a, b) && spec_num_lt(b, a)),
        !spec_num_lt(a, a),
{
}

} // verus!
