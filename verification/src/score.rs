//! Confidence scores. A score is a probability; it is held as the bit pattern
//! of its IEEE 754 double, which for numbers from zero to one grows as the
//! number grows.

use vstd::prelude::*;

verus! {

/// The bit pattern of the double 1.0.
pub const ONE_BITS: u64 = 0x3FF0_0000_0000_0000;

/// A confidence score, by the bit pattern of its double.
#[derive(Clone, Copy, Debug, PartialEq, Eq, Structural)]
pub struct Score {
    pub bits: u64,
}

impl Score {
    /// The score lies between 0.0 and 1.0, both included: the bit patterns of
    /// those doubles are exactly the numbers up to that of 1.0.
    pub open spec fn is_probability(self) -> bool {
        self.bits <= ONE_BITS
    }

    /// The score 0.0, which also signals a failed query.
    pub fn zero() -> (score: Score)
        ensures
            score.bits == 0,
            score.is_probability(),
    {
        Score { bits: 0 }
    }
}

/// One entry of a bulk confidence query: a language, by its two-letter code,
/// and the confidence that the text is written in it.
#[derive(Debug)]
pub struct ConfidenceValue {
    pub language_code: String,
    pub confidence: Score,
}

} // verus!
