//! Numbers are IEEE 754 doubles, held by their bit patterns.
//!
//! Order, equality and negation are decided here, on the bits. Arithmetic,
//! decoding a literal and the decimal form of a number are left to the
//! host of the interpreter.
use vstd::prelude::*;

verus! {

/// The bit of the sign.
pub const SIGN: u64 = 0x8000_0000_0000_0000;

/// The bits of positive infinity: an exponent of all ones and no fraction.
pub const INFINITY: u64 = 0x7FF0_0000_0000_0000;

/// The bits without the sign.
pub open spec fn magnitude(bits: u64) -> int {
    bits as int % SIGN as int
}

/// Whether the sign is set.
pub open spec fn is_negative(bits: u64) -> bool {
    bits >= SIGN
}

/// Not a number: the exponent is all ones and the fraction is not zero.
pub open spec fn is_nan(bits: u64) -> bool {
    magnitude(bits) > INFINITY
}

/// Where the number stands in the order of the numbers. Both zeros stand at 0.
pub open spec fn position(bits: u64) -> int {
    if is_negative(bits) {
        -magnitude(bits)
    } else {
        magnitude(bits)
    }
}

/// `a < b`. Nothing is less than, or greater than, what is not a number.
pub open spec fn less(a: u64, b: u64) -> bool {
    !is_nan(a) && !is_nan(b) && position(a) < position(b)
}

/// `a <= b`.
pub open spec fn less_eq(a: u64, b: u64) -> bool {
    !is_nan(a) && !is_nan(b) && position(a) <= position(b)
}

/// `a == b`. What is not a number equals nothing, itself included; the two
/// zeros are equal.
pub open spec fn equal(a: u64, b: u64) -> bool {
    !is_nan(a) && !is_nan(b) && position(a) == position(b)
}

/// `-a`: the same bits with the sign turned.
pub open spec fn negated(a: u64) -> u64 {
    if is_negative(a) {
        (a - SIGN) as u64
    } else {
        (a + SIGN) as u64
    }
}

/// Whether the bits are those of no number.
pub fn is_number_nan(bits: u64) -> (nan: bool)
    ensures
        nan == is_nan(bits),
{
    bits % SIGN > INFINITY
}

/// `a < b`.
pub fn number_less(a: u64, b: u64) -> (r: bool)
    ensures
        r == less(a, b),
{
    if is_number_nan(a) || is_number_nan(b) {
        false
    } else if a >= SIGN {
        if b >= SIGN {
            a % SIGN > b % SIGN
        } else {
            a % SIGN > 0 || b % SIGN > 0
        }
    } else {
        b < SIGN && a % SIGN < b % SIGN
    }
}

/// `a == b`.
pub fn number_equal(a: u64, b: u64) -> (r: bool)
    ensures
        r == equal(a, b),
{
    if is_number_nan(a) || is_number_nan(b) {
        false
    } else if a % SIGN == 0 {
        b % SIGN == 0
    } else {
        a == b
    }
}

/// `a <= b`.
pub fn number_less_eq(a: u64, b: u64) -> (r: bool)
    ensures
        r == less_eq(a, b),
{
    number_less(a, b) || number_equal(a, b)
}

/// `-a`.
pub fn number_negated(a: u64) -> (r: u64)
    ensures
        r == negated(a),
{
    if a >= SIGN {
        a - SIGN
    } else {
        a + SIGN
    }
}

/// Of two numbers exactly one holds: the first is less, they are equal, or
/// the second is less.
pub proof fn law_numbers_are_ordered(a: u64, b: u64)
    requires
        !is_nan(a),
        !is_nan(b),
    ensures
        less(a, b) || equal(a, b) || less(b, a),
        !(less(a, b) && equal(a, b)),
        !(less(a, b) && less(b, a)),
        !(equal(a, b) && less(b, a)),
        less_eq(a, b) == (less(a, b) || equal(a, b)),
{
}

/// The order of the numbers is transitive.
pub proof fn law_order_is_transitive(a: u64, b: u64, c: u64)
    requires
        less_eq(a, b),
        less_eq(b, c),
    ensures
        less_eq(a, c),
        less(a, b) || less(b, c) ==> less(a, c),
{
}

/// Turning the sign twice gives the number back, and turns the order round.
pub proof fn law_negation(a: u64, b: u64)
    ensures
        negated(negated(a)) == a,
        is_nan(negated(a)) == is_nan(a),
        less(a, b) == less(negated(b), negated(a)),
{
}

} // verus!
