//! The errors of the virtual machine.

use vstd::prelude::*;
use crate::cell::Cell;
use crate::machine::Fault;

verus! {

/// Why a run of the machine failed. None of these is recovered from: the run
/// ends at once, and the machine is not meant to be run again.
#[derive(Debug, Clone, Copy, PartialEq, Eq)]
pub enum VMError<T: Cell> {
    /// The low two digits of the instruction word are no opcode. Holds the
    /// whole word.
    UnknownInstruction(u16),
    /// The cell at the instruction pointer is no sixteen-bit number.
    CannotCastToU16(T),
    /// A cell that is meant as an address is none on this machine.
    CannotCastToUsize(T),
    /// A mode digit is none of 0, 1 and 2. Arguments are counted from 0.
    InvalidArgMode { opcode: u16, arg_num: u8, arg_mode: u8 },
    /// The argument that names the destination is in immediate mode.
    ArgModeCannotBeImmediate { opcode: u16, arg_num: u8 },
}

impl<T: Cell> View for VMError<T> {
    type V = Fault;

    open spec fn view(&self) -> Fault {
        match *self {
            VMError::UnknownInstruction(word) => Fault::UnknownInstruction(word),
            VMError::CannotCastToU16(cell) => Fault::CannotCastToU16(cell.value()),
            VMError::CannotCastToUsize(cell) => Fault::CannotCastToUsize(cell.value()),
            VMError::InvalidArgMode { opcode, arg_num, arg_mode } => Fault::InvalidArgMode {
                opcode,
                arg_num,
                arg_mode,
            },
            VMError::ArgModeCannotBeImmediate { opcode, arg_num } => {
                Fault::ArgModeCannotBeImmediate { opcode, arg_num }
            },
        }
    }
}

} // verus!
