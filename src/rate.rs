use vstd::prelude::*;

verus! {

/// Bits of an IEEE-754 single-precision number that are all set in every
/// infinity and NaN.
pub const EXPONENT_MASK: u32 = 0x7f80_0000;

/// Bits of an IEEE-754 single-precision number that hold the fraction.
pub const FRACTION_MASK: u32 = 0x007f_ffff;

/// Every bit but the sign.
pub const MAGNITUDE_MASK: u32 = 0x7fff_ffff;

/// An exchange rate, held as the bit pattern of an IEEE-754
/// single-precision number.
#[derive(Clone, Copy, Debug)]
pub struct Rate {
    pub bits: u32,
}

/// The pattern is a NaN: exponent all ones, fraction not zero.
pub open spec fn is_nan_bits(b: u32) -> bool {
    (b & EXPONENT_MASK) == EXPONENT_MASK && (b & FRACTION_MASK) != 0
}

/// The pattern is positive or negative zero.
pub open spec fn is_zero_bits(b: u32) -> bool {
    (b & MAGNITUDE_MASK) == 0
}

/// IEEE-754 equality of two single-precision numbers: a NaN equals nothing,
/// the two zeros are equal, any other number equals only itself.
pub open spec fn rates_equal(a: u32, b: u32) -> bool {
    !is_nan_bits(a) && !is_nan_bits(b) && (a == b || (is_zero_bits(a) && is_zero_bits(b)))
}

impl Rate {
    /// Numeric equality of two rates, exactly as floating-point `==`
    /// compares them (no tolerance).
    pub fn same_value(&self, other: &Rate) -> (r: bool)
        ensures
            r == rates_equal(self.bits, other.bits),
    {
        let a = self.bits;
        let b = other.bits;
        let a_nan = (a & EXPONENT_MASK) == EXPONENT_MASK && (a & FRACTION_MASK) != 0;
        let b_nan = (b & EXPONENT_MASK) == EXPONENT_MASK && (b & FRACTION_MASK) != 0;
        let both_zero = (a & MAGNITUDE_MASK) == 0 && (b & MAGNITUDE_MASK) == 0;
        !a_nan && !b_nan && (a == b || both_zero)
    }
}

} // verus!
