//! Decoded instructions.
//!
//! An instruction arrives decoded: an operation, the address of a memory
//! cell, an optional index register and an optional field specification.
//! Where the field specification is left out, the operation supplies its
//! own.

use crate::address::{Address, MEMORY_SIZE};
use crate::error::MixError;
use crate::field::{FieldRange, Modification};
use crate::register::{IndexNumber, ShortView};
use vstd::prelude::*;

verus! {

/// The operations of the machine.
#[derive(Debug, PartialEq, Eq, Structural, Clone, Copy)]
pub enum Operation {
    LDA,
    LDX,
    LD1,
    LD2,
    LD3,
    LD4,
    LD5,
    LD6,
    LDAN,
    LDXN,
    LD1N,
    LD2N,
    LD3N,
    LD4N,
    LD5N,
    LD6N,
    STA,
    STX,
    ST1,
    ST2,
    ST3,
    ST4,
    ST5,
    ST6,
    STJ,
    STZ,
    ADD,
}

/// A register that a load can fill.
pub enum LoadTarget {
    /// The accumulator.
    A,
    /// The extension register.
    X,
    /// One of the index registers.
    I(IndexNumber),
}

/// Where a store takes its word from.
pub enum StoreSource {
    /// The accumulator.
    A,
    /// The extension register.
    X,
    /// One of the index registers.
    I(IndexNumber),
    /// The jump register.
    J,
    /// No register: the word is plus zero.
    Zero,
}

/// What an operation does, by family.
pub enum OperationKind {
    /// Fills a register from a field of a memory cell, negated or not.
    Load { target: LoadTarget, negated: bool },
    /// Overwrites a field of a memory cell from a register or with zero.
    Store { source: StoreSource },
    /// Adds a field of a memory cell to the accumulator.
    Add,
}

impl Operation {
    /// The family of the operation, with the register it works on.
    pub open spec fn kind(self) -> OperationKind {
        match self {
            Operation::LDA => OperationKind::Load { target: LoadTarget::A, negated: false },
            Operation::LDX => OperationKind::Load { target: LoadTarget::X, negated: false },
            Operation::LD1 => OperationKind::Load {
                target: LoadTarget::I(IndexNumber::I1),
                negated: false,
            },
            Operation::LD2 => OperationKind::Load {
                target: LoadTarget::I(IndexNumber::I2),
                negated: false,
            },
            Operation::LD3 => OperationKind::Load {
                target: LoadTarget::I(IndexNumber::I3),
                negated: false,
            },
            Operation::LD4 => OperationKind::Load {
                target: LoadTarget::I(IndexNumber::I4),
                negated: false,
            },
            Operation::LD5 => OperationKind::Load {
                target: LoadTarget::I(IndexNumber::I5),
                negated: false,
            },
            Operation::LD6 => OperationKind::Load {
                target: LoadTarget::I(IndexNumber::I6),
                negated: false,
            },
            Operation::LDAN => OperationKind::Load { target: LoadTarget::A, negated: true },
            Operation::LDXN => OperationKind::Load { target: LoadTarget::X, negated: true },
            Operation::LD1N => OperationKind::Load {
                target: LoadTarget::I(IndexNumber::I1),
                negated: true,
            },
            Operation::LD2N => OperationKind::Load {
                target: LoadTarget::I(IndexNumber::I2),
                negated: true,
            },
            Operation::LD3N => OperationKind::Load {
                target: LoadTarget::I(IndexNumber::I3),
                negated: true,
            },
            Operation::LD4N => OperationKind::Load {
                target: LoadTarget::I(IndexNumber::I4),
                negated: true,
            },
            Operation::LD5N => OperationKind::Load {
                target: LoadTarget::I(IndexNumber::I5),
                negated: true,
            },
            Operation::LD6N => OperationKind::Load {
                target: LoadTarget::I(IndexNumber::I6),
                negated: true,
            },
            Operation::STA => OperationKind::Store { source: StoreSource::A },
            Operation::STX => OperationKind::Store { source: StoreSource::X },
            Operation::ST1 => OperationKind::Store { source: StoreSource::I(IndexNumber::I1) },
            Operation::ST2 => OperationKind::Store { source: StoreSource::I(IndexNumber::I2) },
            Operation::ST3 => OperationKind::Store { source: StoreSource::I(IndexNumber::I3) },
            Operation::ST4 => OperationKind::Store { source: StoreSource::I(IndexNumber::I4) },
            Operation::ST5 => OperationKind::Store { source: StoreSource::I(IndexNumber::I5) },
            Operation::ST6 => OperationKind::Store { source: StoreSource::I(IndexNumber::I6) },
            Operation::STJ => OperationKind::Store { source: StoreSource::J },
            Operation::STZ => OperationKind::Store { source: StoreSource::Zero },
            Operation::ADD => OperationKind::Add,
        }
    }

    /// The field that the operation works on when the instruction names
    /// none: the sign and the first two bytes for the store of the jump
    /// register, the whole word for every other operation.
    pub open spec fn default_field(self) -> FieldRange {
        if self == Operation::STJ {
            FieldRange { l: 0, r: 2 }
        } else {
            FieldRange::whole()
        }
    }

    /// The field specification that the operation works on when the
    /// instruction names none.
    pub fn default_modification(self) -> (m: Modification)
        ensures
            m@ == self.default_field(),
            m@.valid(),
    {
        match self {
            Operation::STJ => Modification::field(0, 2),
            _ => Modification::field(0, 5),
        }
    }
}

/// The mathematical model of an instruction.
pub struct InstructionView {
    pub operation: Operation,
    pub address: ShortView,
    pub index: Option<IndexNumber>,
    pub modification: Option<FieldRange>,
}

impl InstructionView {
    /// The number of the memory cell that the instruction works on.
    pub open spec fn cell(self) -> nat {
        self.address.magnitude()
    }

    /// The field that the instruction works on: its own if it names one,
    /// else that of its operation.
    pub open spec fn field(self) -> FieldRange {
        match self.modification {
            Some(f) => f,
            None => self.operation.default_field(),
        }
    }

    /// The instruction can be carried out: its cell is in memory and its
    /// field lies inside a word.
    pub open spec fn valid(self) -> bool {
        self.cell() < MEMORY_SIZE && self.field().valid()
    }
}

/// A decoded instruction.
#[derive(Debug, PartialEq, Clone, Copy)]
pub struct Instruction {
    pub operation: Operation,
    pub address: Address,
    pub index: Option<IndexNumber>,
    pub modification: Option<Modification>,
}

impl View for Instruction {
    type V = InstructionView;

    open spec fn view(&self) -> InstructionView {
        InstructionView {
            operation: self.operation,
            address: self.address@,
            index: self.index,
            modification: match self.modification {
                Some(m) => Some(m@),
                None => None,
            },
        }
    }
}

impl Instruction {
    /// The instruction with the given parts.
    pub fn new(
        operation: Operation,
        address: Address,
        index: Option<IndexNumber>,
        modification: Option<Modification>,
    ) -> (r: Instruction)
        ensures
            r == (Instruction { operation, address, index, modification }),
    {
        Instruction { operation, address, index, modification }
    }

    /// The field specification that the instruction works on: its own if it
    /// names one, else that of its operation.
    pub fn field(&self) -> (m: Modification)
        ensures
            m@ == self@.field(),
    {
        match self.modification {
            Some(m) => m,
            None => self.operation.default_modification(),
        }
    }

    /// Whether the field that the instruction works on lies inside a word.
    pub fn has_valid_field(&self) -> (b: bool)
        ensures
            b == self@.field().valid(),
    {
        self.field().is_valid()
    }

    /// Nothing, if the cell that the instruction names is in memory, else
    /// the failure that says it is not.
    pub fn check_address(&self) -> (r: Result<(), MixError>)
        ensures
            self@.cell() < MEMORY_SIZE ==> r == Ok::<(), MixError>(()),
            self@.cell() >= MEMORY_SIZE ==> r == Err::<(), MixError>(
                MixError::AddressOutOfRange { cell: self@.cell() as usize },
            ),
    {
        match self.address.checked_cell() {
            Ok(_) => Ok(()),
            Err(e) => Err(e),
        }
    }
}

} // verus!
