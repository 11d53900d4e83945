//! Double-precision numbers by their bits (IEEE 754 binary64), for the few questions that
//! the plugin asks of a playback speed or a rectangle.

use vstd::prelude::*;

verus! {

/// The bits of 1.0.
pub const ONE: u64 = 0x3ff0_0000_0000_0000;

/// The bits of 0.0.
pub const ZERO: u64 = 0;

/// The sign bit is set.
pub open spec fn is_signed(bits: u64) -> bool {
    bits >= 0x8000_0000_0000_0000
}

/// Neither infinite nor a NaN: the exponent is not all ones.
pub open spec fn is_finite(bits: u64) -> bool {
    (bits / 0x10_0000_0000_0000) % 0x800 != 0x7ff
}

/// Finite and greater than zero.
pub open spec fn is_positive(bits: u64) -> bool {
    is_finite(bits) && !is_signed(bits) && bits != ZERO
}

/// Two numbers compare equal: neither is a NaN, and they have the same bits or are zeros.
pub open spec fn compares_equal(a: u64, b: u64) -> bool {
    &&& a % 0x8000_0000_0000_0000 <= 0x7ff0_0000_0000_0000
    &&& b % 0x8000_0000_0000_0000 <= 0x7ff0_0000_0000_0000
    &&& a == b || (a % 0x8000_0000_0000_0000 == 0 && b % 0x8000_0000_0000_0000 == 0)
}

/// Whether two numbers compare equal.
pub fn equal(a: u64, b: u64) -> (r: bool)
    ensures
        r == compares_equal(a, b),
{
    a % 0x8000_0000_0000_0000 <= 0x7ff0_0000_0000_0000 && b % 0x8000_0000_0000_0000
        <= 0x7ff0_0000_0000_0000 && (a == b || (a % 0x8000_0000_0000_0000 == 0 && b
        % 0x8000_0000_0000_0000 == 0))
}

/// Whether the number is neither infinite nor a NaN.
pub fn finite(bits: u64) -> (r: bool)
    ensures
        r == is_finite(bits),
{
    (bits / 0x10_0000_0000_0000) % 0x800 != 0x7ff
}

/// Whether the number is finite and greater than zero.
pub fn positive(bits: u64) -> (r: bool)
    ensures
        r == is_positive(bits),
{
    finite(bits) && bits < 0x8000_0000_0000_0000 && bits != ZERO
}

/// `bits` if it is finite and not negative, else 0.0.
pub open spec fn at_least_zero(bits: u64) -> u64 {
    if is_finite(bits) && !is_signed(bits) {
        bits
    } else {
        ZERO
    }
}

/// `bits` if it is finite and not negative, else 0.0.
pub fn clamp_to_zero(bits: u64) -> (r: u64)
    ensures
        r == at_least_zero(bits),
{
    if finite(bits) && bits < 0x8000_0000_0000_0000 {
        bits
    } else {
        ZERO
    }
}

/// The finite positive numbers are exactly the bit patterns between those of zero and of
/// infinity.
pub proof fn positive_is_a_range(bits: u64)
    ensures
        is_positive(bits) <==> 0 < bits < 0x7ff0_0000_0000_0000,
{
}

/// Among positive numbers, to compare equal is to have the same bits.
pub proof fn positive_numbers_compare_by_bits(a: u64, b: u64)
    requires
        is_positive(a),
        is_positive(b),
    ensures
        compares_equal(a, b) <==> a == b,
{
}

} // verus!
