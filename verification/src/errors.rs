//! Errors shared by every validated conversion.

use vstd::prelude::*;

verus! {

/// A type without values: what never happens.
#[derive(Debug, Clone, Copy, PartialEq, Eq)]
pub struct Never(core::convert::Infallible);

/// A required field was absent from a wire message. Holds the field's name.
#[derive(Debug, Clone, PartialEq, Eq)]
pub struct MissingField(pub &'static str);

/// The length a byte string was expected to have.
#[derive(Debug, Clone, Copy, PartialEq, Eq, Structural)]
pub enum ExpectedLength {
    /// Exactly this many bytes.
    Exact(usize),
    /// Strictly fewer than this many bytes.
    LessThan(usize),
    /// Between the two bounds, both inclusive.
    Between(usize, usize),
    /// At least this many bytes.
    Gte(usize),
}

/// A byte string had a length other than the expected one.
#[derive(Debug, Clone, Copy, PartialEq, Eq, Structural)]
pub struct InvalidLength {
    pub expected: ExpectedLength,
    pub found: usize,
}

} // verus!
