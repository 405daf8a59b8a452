//! The calculation engine's decision logic.
//!
//! The four arithmetic results arrive here already rendered as decimal text;
//! the one decision the engine owns is whether the quotient is defined. That
//! decision is taken on the divisor's 64-bit IEEE 754 bit pattern: a 64-bit
//! float compares equal to zero exactly when its bits are one of the two zero
//! encodings, so the test below coincides with an exact `== 0.0` comparison.

use vstd::prelude::*;

verus! {

/// The bit pattern of IEEE 754 negative zero; positive zero is all-zero bits.
pub const NEGATIVE_ZERO_BITS: u64 = 0x8000_0000_0000_0000;

/// Whether a 64-bit IEEE 754 bit pattern encodes zero (positive or negative).
pub open spec fn spec_is_zero_bits(bits: u64) -> bool {
    bits == 0u64 || bits == NEGATIVE_ZERO_BITS
}

/// Exact zero test on a 64-bit IEEE 754 bit pattern.
pub fn is_zero_bits(bits: u64) -> (r: bool)
    ensures
        r == spec_is_zero_bits(bits),
{
    bits == 0u64 || bits == NEGATIVE_ZERO_BITS
}

/// The fixed text that stands in for a quotient whose divisor is zero.
pub open spec fn sentinel_view() -> Seq<char> {
    "undefined (division by zero)"@
}

/// The sentinel recorded and reported when the divisor is zero.
pub fn division_sentinel() -> (r: String)
    ensures
        r@ == sentinel_view(),
{
    String::from_str("undefined (division by zero)")
}

/// The division field: the rendered quotient, unless the divisor's bit
/// pattern encodes zero, in which case it is the sentinel.
pub open spec fn spec_division_text(num2_bits: u64, quotient: Seq<char>) -> Seq<char> {
    if spec_is_zero_bits(num2_bits) {
        sentinel_view()
    } else {
        quotient
    }
}

/// Picks the division field from the divisor's bit pattern and the rendered
/// quotient.
pub fn division_text(num2_bits: u64, quotient: &str) -> (r: String)
    ensures
        r@ == spec_division_text(num2_bits, quotient@),
{
    if is_zero_bits(num2_bits) {
        division_sentinel()
    } else {
        quotient.to_owned()
    }
}

/// Law: a zero divisor always yields the sentinel, whatever quotient text was
/// rendered for it.
pub proof fn lemma_zero_divisor_sentinel(num2_bits: u64, quotient: Seq<char>)
    requires
        spec_is_zero_bits(num2_bits),
    ensures
        spec_division_text(num2_bits, quotient) == sentinel_view(),
{
}

/// Law: a nonzero divisor reports the rendered quotient exactly, so the
/// division field parses back to the quotient whenever its text does.
pub proof fn lemma_nonzero_divisor_quotient(num2_bits: u64, quotient: Seq<char>)
    requires
        !spec_is_zero_bits(num2_bits),
    ensures
        spec_division_text(num2_bits, quotient) == quotient,
{
}

/// The four rendered results of one calculation: sum, difference and product
/// as decimal text, and the division field (quotient text or sentinel).
pub struct Computation {
    pub addition: String,
    pub subtraction: String,
    pub multiplication: String,
    pub division: String,
}

impl Computation {
    /// Assembles the engine's output from the three always-defined results,
    /// the rendered quotient, and the divisor's bit pattern.
    pub fn assemble(
        addition: String,
        subtraction: String,
        multiplication: String,
        quotient: &str,
        num2_bits: u64,
    ) -> (r: Computation)
        ensures
            r.addition == addition,
            r.subtraction == subtraction,
            r.multiplication == multiplication,
            r.division@ == spec_division_text(num2_bits, quotient@),
    {
        Computation {
            addition,
            subtraction,
            multiplication,
            division: division_text(num2_bits, quotient),
        }
    }
}

} // verus!
