//! Stepping through the bit patterns of single-precision floats.

use vstd::prelude::*;

verus! {

/// Bit pattern of the smallest positive float.
pub const TINY_BITS: u32 = 0x1;

/// Every bit but the sign.
pub const CLEAR_SIGN_MASK: u32 = 0x7fff_ffff;

/// Bit pattern of positive infinity.
pub const INFINITY_BITS: u32 = 0x7f80_0000;

/// The bits are those of a number and not of a NaN.
pub open spec fn is_number(bits: u32) -> bool {
    (bits & CLEAR_SIGN_MASK) <= INFINITY_BITS
}

/// The place of a number in the order of the floats: the magnitude bits,
/// counted down from zero for the negative ones. Both zeros have the place
/// zero.
pub open spec fn rank(bits: u32) -> int {
    if bits & CLEAR_SIGN_MASK == bits {
        bits as int
    } else {
        -((bits & CLEAR_SIGN_MASK) as int)
    }
}

/// Bit pattern of the least float above the one with the given bits. A NaN
/// and positive infinity have none and are given back. Otherwise the result
/// is a number, it stands one place higher, and it is written without a sign
/// unless it lies below zero or is the zero that follows the negative
/// numbers.
pub fn next_up_bits(bits: u32) -> (next: u32)
    ensures
        !is_number(bits) || bits == INFINITY_BITS ==> next == bits,
        is_number(bits) && bits != INFINITY_BITS ==> is_number(next) && rank(next) == rank(bits)
            + 1,
        is_number(bits) && bits != INFINITY_BITS && rank(bits) >= 0 ==> next == rank(bits) + 1,
        is_number(bits) && bits != INFINITY_BITS && rank(bits) < 0 ==> next == bits - 1,
{
    let abs: u32 = bits & CLEAR_SIGN_MASK;
    if abs > INFINITY_BITS || bits == INFINITY_BITS {
        assert(0x7f80_0000u32 & 0x7fff_ffff == 0x7f80_0000) by (bit_vector);
        return bits;
    }
    assert(abs != bits ==> bits == abs + 0x8000_0000) by (bit_vector)
        requires
            abs == bits & 0x7fff_ffff,
    ;
    assert(abs <= 0x7fff_ffff) by (bit_vector)
        requires
            abs == bits & 0x7fff_ffff,
    ;
    if abs == 0 {
        assert(1u32 & 0x7fff_ffff == 1) by (bit_vector);
        TINY_BITS
    } else if bits == abs {
        let next: u32 = bits + 1;
        assert(next & 0x7fff_ffff == next) by (bit_vector)
            requires
                next <= 0x7f80_0000,
        ;
        next
    } else {
        let next: u32 = bits - 1;
        assert(next & 0x7fff_ffff == abs - 1) by (bit_vector)
            requires
                abs == bits & 0x7fff_ffff,
                abs != bits,
                abs != 0,
                next == bits - 1,
        ;
        assert(abs - 1 != next) by (bit_vector)
            requires
                abs == bits & 0x7fff_ffff,
                abs != bits,
                abs != 0,
                next == bits - 1,
        ;
        next
    }
}

} // verus!
