//! Error kinds for invalid region transformations and malformed
//! numeric expressions.

use vstd::prelude::*;

verus! {

/// A typed failure of a region transformation or of expression
/// normalization.  All variants describe invalid input; none is
/// transient or retryable.
#[derive(Debug, PartialEq)]
pub enum MemoryError {
    /// An offset larger than the remaining length of the section.
    InvalidOffset,
    /// A page size of zero.
    InvalidPageSize,
    /// A slot index at or past the number of slots, or zero slots.
    InvalidSlotIndex,
    /// Page alignment collapsed the usable range below zero.
    RegionTooSmall,
    /// A numeric expression failed to parse or evaluate; carries the
    /// original expression and the evaluator's message.
    ExpressionError(String, String),
    /// A numeric expression evaluated to a negative integer.
    NegativeResult,
}

/// What [`MemoryError::message`] returns for each variant.  For
/// `ExpressionError` this is the evaluator's own message.
pub open spec fn spec_message(e: MemoryError) -> Seq<char> {
    match e {
        MemoryError::InvalidOffset => "offset exceeds remaining length"@,
        MemoryError::InvalidPageSize => "pagesize must not be zero"@,
        MemoryError::InvalidSlotIndex => "slot index out of range"@,
        MemoryError::RegionTooSmall => "page alignment leaves no usable range"@,
        MemoryError::ExpressionError(_, m) => m@,
        MemoryError::NegativeResult => "expression evaluates to negative integer"@,
    }
}

impl MemoryError {
    /// A human-readable description of the failure.
    pub fn message(&self) -> (r: String)
        ensures
            r@ == spec_message(*self),
    {
        match self {
            MemoryError::InvalidOffset => String::from_str("offset exceeds remaining length"),
            MemoryError::InvalidPageSize => String::from_str("pagesize must not be zero"),
            MemoryError::InvalidSlotIndex => String::from_str("slot index out of range"),
            MemoryError::RegionTooSmall => String::from_str(
                "page alignment leaves no usable range",
            ),
            MemoryError::ExpressionError(_, m) => m.clone(),
            MemoryError::NegativeResult => String::from_str(
                "expression evaluates to negative integer",
            ),
        }
    }
}

} // verus!
