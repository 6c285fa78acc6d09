//! A single-step simulator of the MIX register machine: six-bit bytes,
//! signed-magnitude words, field-addressed loads and stores, and addition
//! with an overflow toggle.

pub mod address;
pub mod byte;
pub mod error;
pub mod field;
pub mod instruction;
pub mod machine;
pub mod register;
pub mod sign;
pub mod word;

pub use crate::address::{Address, MEMORY_SIZE};
pub use crate::byte::{Byte, BYTE};
pub use crate::error::MixError;
pub use crate::field::{FieldRange, Modification};
pub use crate::instruction::{
    Instruction, InstructionView, LoadTarget, Operation, OperationKind, StoreSource,
};
pub use crate::machine::{Mix, MixView};
pub use crate::register::{Comparison, Index, IndexNumber, Jump, ShortView, Toggle};
pub use crate::sign::Sign;
pub use crate::word::{Word, WordView, WORD_BYTES, WORD_CAPACITY};
