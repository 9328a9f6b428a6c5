//! The reasons for which an invocation is refused.

use vstd::prelude::*;

verus! {

/// Why an invocation was refused. Every refusal ends the invocation and
/// leaves the storage region untouched.
#[derive(Debug, Clone, Copy, PartialEq, Eq, Structural)]
pub enum Failure {
    /// The storage region belongs to another identity than the one expected.
    IncorrectOwner,
    /// The stored bytes or the instruction bytes are not in the fixed layout.
    DecodeError,
    /// The instruction names an option other than 0, 1, 2 or 3.
    InvalidOption,
    /// The storage region cannot hold the 33 bytes of an encoded tally.
    BufferTooSmall,
    /// The counter to increment already holds the largest value of its type.
    Overflow,
}

} // verus!
