use vstd::prelude::*;

verus! {

/// Why a decode failed.
#[derive(Debug, Clone, Copy, PartialEq, Eq, Structural)]
pub enum DecodeError {
    /// A field needed more bytes than remained in the buffer.
    InsufficientData,
    /// A CompactSize prefix announced continuation bytes that the buffer lacks.
    TruncatedVarInt,
    /// Bytes remain after the locktime field.
    TrailingData,
    /// The text is not hexadecimal, or is too short to hold a version field.
    InvalidEncoding,
}

/// The two failures that a buffer cut short can produce.
pub open spec fn is_short(r: DecodeError) -> bool {
    r == DecodeError::InsufficientData || r == DecodeError::TruncatedVarInt
}

} // verus!
