//! The error taxonomy of the packing subsystem.
//!
//! Every failure of the encoder surfaces as one of these variants; no input
//! ever causes a panic or a silent coercion.

use vstd::prelude::*;

verus! {

/// Why a packing request was rejected.
#[derive(Clone, Copy, Debug, PartialEq, Eq, Structural)]
pub enum PackError {
    /// The type string matches no production of the type grammar, or a
    /// numeric width is out of range.
    InvalidType,
    /// The `types` and `values` sequences differ in length.
    ArityMismatch,
    /// A literal fixed array length does not match the number of supplied
    /// elements.
    InvalidArrayLength,
    /// A `bytesN` literal's decoded byte length is not exactly `N`.
    InvalidBytesLength,
    /// A signed or unsigned value does not fit in the requested bit width.
    NumericOverflow,
    /// An internal padding request was asked to shrink its data; unreachable
    /// from well-formed inputs.
    BufferOverrun,
    /// A hex data literal has an odd number of digits or a non-hex character.
    InvalidHex,
    /// An integer literal holds something other than an optional sign
    /// followed by decimal digits.
    InvalidNumeric,
}

impl PackError {
    /// A human-readable description of the failure.
    pub fn message(&self) -> (r: String)
        ensures
            r@.len() > 0,
    {
        let s: &'static str = match self {
            PackError::InvalidType => "invalid type",
            PackError::ArityMismatch => "wrong number of values",
            PackError::InvalidArrayLength => "invalid array length",
            PackError::InvalidBytesLength => "invalid length for fixed bytes value",
            PackError::NumericOverflow => "numeric value does not fit the requested width",
            PackError::BufferOverrun => "padding exceeds data length",
            PackError::InvalidHex => "invalid hex string",
            PackError::InvalidNumeric => "invalid numeric literal",
        };
        proof {
            reveal_strlit("invalid type");
            reveal_strlit("wrong number of values");
            reveal_strlit("invalid array length");
            reveal_strlit("invalid length for fixed bytes value");
            reveal_strlit("numeric value does not fit the requested width");
            reveal_strlit("padding exceeds data length");
            reveal_strlit("invalid hex string");
            reveal_strlit("invalid numeric literal");
        }
        String::from_str(s)
    }
}

} // verus!
