//! Numbers as IEEE 754 binary64 bit patterns.
//!
//! A number is the 64-bit pattern of a binary64 value: one sign bit, eleven
//! exponent bits and fifty-two fraction bits, most significant first. Equality,
//! ordering and negation are decided here on the bits. Addition, subtraction,
//! multiplication and division round, and are left to the caller's arithmetic.

use vstd::prelude::*;

verus! {

/// The pattern whose only set bit is the sign bit.
pub const SIGN_BIT: u64 = 0x8000_0000_0000_0000;

/// The pattern of positive infinity: every exponent bit set, no fraction bit.
pub const INFINITY: u64 = 0x7ff0_0000_0000_0000;

/// The pattern with the sign bit cleared.
pub open spec fn magnitude(bits: u64) -> int {
    if bits >= SIGN_BIT {
        bits - SIGN_BIT
    } else {
        bits as int
    }
}

/// Whether the sign bit is set.
pub open spec fn is_negative(bits: u64) -> bool {
    bits >= SIGN_BIT
}

/// Whether the pattern is a NaN: every exponent bit set and some fraction bit.
pub open spec fn is_nan(bits: u64) -> bool {
    magnitude(bits) > INFINITY
}

/// An integer that orders the patterns as their values are ordered. Both
/// zeros map to 0. It is meaningful only where the pattern is no NaN.
pub open spec fn rank(bits: u64) -> int {
    if is_negative(bits) {
        -magnitude(bits)
    } else {
        magnitude(bits)
    }
}

/// IEEE equality: no NaN equals anything, and the two zeros are equal.
pub open spec fn equal(a: u64, b: u64) -> bool {
    !is_nan(a) && !is_nan(b) && rank(a) == rank(b)
}

/// IEEE `<`: false where either side is a NaN.
pub open spec fn less(a: u64, b: u64) -> bool {
    !is_nan(a) && !is_nan(b) && rank(a) < rank(b)
}

/// IEEE `<=`: false where either side is a NaN.
pub open spec fn less_equal(a: u64, b: u64) -> bool {
    !is_nan(a) && !is_nan(b) && rank(a) <= rank(b)
}

/// The pattern with the sign bit flipped.
pub open spec fn negated(bits: u64) -> u64 {
    if bits >= SIGN_BIT {
        (bits - SIGN_BIT) as u64
    } else {
        (bits + SIGN_BIT) as u64
    }
}

/// Clears the sign bit.
fn clear_sign(bits: u64) -> (m: u64)
    ensures
        m == magnitude(bits),
        m < SIGN_BIT,
{
    if bits >= SIGN_BIT {
        bits - SIGN_BIT
    } else {
        bits
    }
}

/// Tells whether `bits` is a NaN.
pub fn nan(bits: u64) -> (r: bool)
    ensures
        r == is_nan(bits),
{
    clear_sign(bits) > INFINITY
}

/// Tells whether `rank(a) < rank(b)` or, with `or_equal`, `rank(a) <= rank(b)`.
fn ranked_before(a: u64, b: u64, or_equal: bool) -> (r: bool)
    ensures
        r == (rank(a) < rank(b) || (or_equal && rank(a) == rank(b))),
{
    let ma = clear_sign(a);
    let mb = clear_sign(b);
    let na = a >= SIGN_BIT;
    let nb = b >= SIGN_BIT;
    if na && nb {
        // Both at or below zero: the larger magnitude is the smaller value.
        ma > mb || (or_equal && ma == mb)
    } else if na {
        ma > 0 || mb > 0 || or_equal
    } else if nb {
        or_equal && ma == 0 && mb == 0
    } else {
        ma < mb || (or_equal && ma == mb)
    }
}

/// IEEE equality of two numbers.
pub fn eq(a: u64, b: u64) -> (r: bool)
    ensures
        r == equal(a, b),
{
    !nan(a) && !nan(b) && ranked_before(a, b, true) && ranked_before(b, a, true)
}

/// IEEE `a < b`.
pub fn lt(a: u64, b: u64) -> (r: bool)
    ensures
        r == less(a, b),
{
    !nan(a) && !nan(b) && ranked_before(a, b, false)
}

/// IEEE `a <= b`.
pub fn le(a: u64, b: u64) -> (r: bool)
    ensures
        r == less_equal(a, b),
{
    !nan(a) && !nan(b) && ranked_before(a, b, true)
}

/// IEEE `a > b`, which is `b < a`.
pub fn gt(a: u64, b: u64) -> (r: bool)
    ensures
        r == less(b, a),
{
    lt(b, a)
}

/// IEEE `a >= b`, which is `b <= a`.
pub fn ge(a: u64, b: u64) -> (r: bool)
    ensures
        r == less_equal(b, a),
{
    le(b, a)
}

/// The number with the opposite sign.
pub fn neg(bits: u64) -> (r: u64)
    ensures
        r == negated(bits),
{
    if bits >= SIGN_BIT {
        bits - SIGN_BIT
    } else {
        bits + SIGN_BIT
    }
}

/// Equality is symmetric, and a number that is no NaN equals itself.
pub proof fn lemma_equal_symmetric(a: u64, b: u64)
    ensures
        equal(a, b) == equal(b, a),
        !is_nan(a) ==> equal(a, a),
{
}

/// Of two numbers that are no NaN, exactly one of `a < b`, `a == b` and
/// `b < a` holds.
pub proof fn lemma_trichotomy(a: u64, b: u64)
    requires
        !is_nan(a),
        !is_nan(b),
    ensures
        less(a, b) || equal(a, b) || less(b, a),
        !(less(a, b) && equal(a, b)),
        !(less(a, b) && less(b, a)),
        !(equal(a, b) && less(b, a)),
        less_equal(a, b) == (less(a, b) || equal(a, b)),
{
}

/// Negating twice gives the number back, and negation reverses the order.
pub proof fn lemma_negated(a: u64, b: u64)
    ensures
        negated(negated(a)) == a,
        is_nan(negated(a)) == is_nan(a),
        less(negated(a), negated(b)) == less(b, a),
{
}

} // verus!
