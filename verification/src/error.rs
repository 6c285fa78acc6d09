//! Failures that the machine reports instead of crashing.

use vstd::prelude::*;

verus! {

/// The recoverable failures of the machine.
#[derive(Debug, PartialEq, Eq, Structural, Clone, Copy)]
pub enum MixError {
    /// A value of 64 or more was offered as a six-bit byte.
    InvalidByte { value: u8 },
    /// An address names a cell at or beyond the end of memory.
    AddressOutOfRange { cell: usize },
}

} // verus!
