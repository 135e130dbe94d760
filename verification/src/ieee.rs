//! Bit-level view of the IEEE-754 parameters the sampler reads.
//!
//! Temperatures and top-p thresholds travel through this crate as the raw
//! 64-bit patterns of IEEE-754 double-precision values, and the repetition
//! penalty as the 32-bit pattern of a single-precision value, so that the
//! crate's own logic stays within integer arithmetic. The two decisions the
//! engine takes on such values — "is the temperature below the negligibility
//! threshold" and "is the penalty exactly one" — are pure functions of the
//! bit pattern, written out here.

use vstd::prelude::*;

verus! {

/// Bit pattern of the double-precision value 1e-7, the threshold below which
/// a configured temperature counts as zero and sampling falls back to the
/// deterministic arg-max strategy.
pub const TINY_TEMPERATURE_BITS: u64 = 0x3E7A_D7F2_9ABC_AF48;

/// Bit pattern of the single-precision value 1.0; a repetition penalty of
/// exactly one disables the penalty transform.
pub const PENALTY_ONE_BITS: u32 = 0x3F80_0000;

/// Whether `bits` encodes a double-precision NaN: exponent field all ones
/// and a non-zero fraction.
pub open spec fn spec_double_is_nan(bits: u64) -> bool {
    (bits >> 52) & 0x7FF == 0x7FF && bits & 0xF_FFFF_FFFF_FFFF != 0
}

/// Whether `bits` encodes a double-precision value with the sign bit set.
pub open spec fn spec_double_is_negative(bits: u64) -> bool {
    bits >> 63 == 1
}

/// Whether the double encoded by `bits` compares strictly below 1e-7 under
/// IEEE-754 ordering: false for a NaN, true for every sign-negative value
/// (including negative zero), and for non-negative values decided by the bit
/// pattern, whose unsigned integer order agrees with the numeric order.
pub open spec fn spec_temperature_is_negligible(bits: u64) -> bool {
    !spec_double_is_nan(bits) && (spec_double_is_negative(bits)
        || bits < TINY_TEMPERATURE_BITS)
}

/// Executable form of `spec_temperature_is_negligible`.
pub fn temperature_is_negligible(bits: u64) -> (r: bool)
    ensures
        r == spec_temperature_is_negligible(bits),
{
    let exponent = (bits >> 52) & 0x7FF;
    let fraction = bits & 0xF_FFFF_FFFF_FFFF;
    let is_nan = exponent == 0x7FF && fraction != 0;
    let negative = (bits >> 63) == 1;
    !is_nan && (negative || bits < TINY_TEMPERATURE_BITS)
}

} // verus!
