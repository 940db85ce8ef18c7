//! IEEE 754 single-precision values, held by their bit pattern.

use vstd::prelude::*;

verus! {

/// A single-precision value as its 32-bit pattern: sign bit, eight exponent
/// bits, twenty-three mantissa bits.
#[derive(Clone, Copy, Debug, PartialEq, Eq, Structural)]
pub struct F32Bits {
    pub bits: u32,
}

/// Position of a bit pattern in the IEEE 754 `totalOrder` relation:
/// negative NaNs, negative infinity, negative numbers, negative zero,
/// positive zero, positive numbers, positive infinity, positive NaNs.
///
/// Patterns with the sign bit clear keep their value; patterns with the sign
/// bit set are mirrored below zero, so that a larger magnitude gives a
/// smaller key.
pub open spec fn order_key(bits: u32) -> int {
    if bits < 0x8000_0000 {
        bits as int
    } else {
        0x7FFF_FFFF - bits
    }
}

/// Bit pattern of `-1.0`.
pub const MINUS_ONE_BITS: u32 = 0xBF80_0000;

impl F32Bits {
    /// Positive zero.
    pub fn zero() -> (r: F32Bits)
        ensures
            r.bits == 0,
    {
        F32Bits { bits: 0 }
    }

    /// The value `-1.0`: sign bit set, exponent field 127, empty mantissa.
    pub fn minus_one() -> (r: F32Bits)
        ensures
            r.bits == MINUS_ONE_BITS,
    {
        F32Bits { bits: MINUS_ONE_BITS }
    }

    pub open spec fn key(self) -> int {
        order_key(self.bits)
    }

    pub fn from_bits(bits: u32) -> (r: F32Bits)
        ensures
            r.bits == bits,
    {
        F32Bits { bits }
    }

    pub fn to_bits(&self) -> (r: u32)
        ensures
            r == self.bits,
    {
        self.bits
    }

    /// The key by which two values compare as `totalOrder` compares them.
    pub fn total_order_key(&self) -> (k: i32)
        ensures
            k == self.key(),
    {
        if self.bits < 0x8000_0000 {
            self.bits as i32
        } else {
            let mirrored: i64 = 0x7FFF_FFFFi64 - (self.bits as i64);
            mirrored as i32
        }
    }
}

/// `totalOrder` is a total order on bit patterns: two patterns share a key
/// only if they are the same pattern.
pub proof fn lemma_order_key_injective(a: u32, b: u32)
    requires
        order_key(a) == order_key(b),
    ensures
        a == b,
{
}

} // verus!
