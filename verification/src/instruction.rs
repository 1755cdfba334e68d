//! Decoding of the instruction at the instruction pointer.
//!
//! Nothing is kept between two fetches: a program may overwrite the
//! instructions that it has not reached yet.

use vstd::prelude::*;
use crate::cell::Cell;
use crate::error::VMError;
use crate::machine::{
    binary, decode, destination, mode_digit, opcode_of, operand, pair, width_of, Fault, Operand,
    Operation,
};
use crate::vm::IntcodeVM;

verus! {

/// A resolved argument: a value, or the address of the cell that is meant.
#[derive(Debug, Clone, Copy)]
pub enum Argument<T: Cell> {
    Immediate(T),
    Address(usize),
}

impl<T: Cell> View for Argument<T> {
    type V = Operand;

    open spec fn view(&self) -> Operand {
        match *self {
            Argument::Immediate(cell) => Operand::Immediate(cell.value()),
            Argument::Address(address) => Operand::Address(address as int),
        }
    }
}

/// A decoded instruction. A destination is the address to write to.
#[derive(Debug, Clone, Copy)]
pub enum Instruction<T: Cell> {
    Add(Argument<T>, Argument<T>, usize),
    Mul(Argument<T>, Argument<T>, usize),
    Input(usize),
    Output(Argument<T>),
    JumpIfTrue(Argument<T>, Argument<T>),
    JumpIfFalse(Argument<T>, Argument<T>),
    LessThan(Argument<T>, Argument<T>, usize),
    Equals(Argument<T>, Argument<T>, usize),
    AdjustBase(Argument<T>),
    Halt,
}

impl<T: Cell> View for Instruction<T> {
    type V = Operation;

    open spec fn view(&self) -> Operation {
        match *self {
            Instruction::Add(a, b, dest) => Operation::Add(a@, b@, dest as int),
            Instruction::Mul(a, b, dest) => Operation::Multiply(a@, b@, dest as int),
            Instruction::Input(dest) => Operation::Input(dest as int),
            Instruction::Output(a) => Operation::Output(a@),
            Instruction::JumpIfTrue(a, b) => Operation::JumpIfTrue(a@, b@),
            Instruction::JumpIfFalse(a, b) => Operation::JumpIfFalse(a@, b@),
            Instruction::LessThan(a, b, dest) => Operation::LessThan(a@, b@, dest as int),
            Instruction::Equals(a, b, dest) => Operation::Equals(a@, b@, dest as int),
            Instruction::AdjustBase(a) => Operation::AdjustBase(a@),
            Instruction::Halt => Operation::Halt,
        }
    }
}

/// What a decoding result says in the terms of the model.
pub open spec fn decoded<T: Cell>(r: Result<Instruction<T>, VMError<T>>) -> Result<
    Operation,
    Fault,
> {
    match r {
        Ok(instruction) => Ok(instruction@),
        Err(error) => Err(error@),
    }
}

/// What a resolved argument says in the terms of the model.
pub open spec fn resolved<T: Cell>(r: Result<Argument<T>, VMError<T>>) -> Result<Operand, Fault> {
    match r {
        Ok(argument) => Ok(argument@),
        Err(error) => Err(error@),
    }
}

/// What a resolved destination says in the terms of the model.
pub open spec fn resolved_destination<T: Cell>(r: Result<usize, VMError<T>>) -> Result<int, Fault> {
    match r {
        Ok(address) => Ok(address as int),
        Err(error) => Err(error@),
    }
}

/// The mode digit of argument `arg_num` of an instruction word.
fn mode_of(word: u16, arg_num: u8) -> (digit: u8)
    requires
        arg_num < 3,
    ensures
        digit == mode_digit(word, arg_num as int),
{
    if arg_num == 0 {
        ((word / 100) % 10) as u8
    } else if arg_num == 1 {
        ((word / 1000) % 10) as u8
    } else {
        ((word / 10000) % 10) as u8
    }
}

/// A cell as an address.
fn address_from<T: Cell>(cell: T) -> (r: Result<Argument<T>, VMError<T>>)
    ensures
        resolved(r) == crate::machine::address_of(cell.value()),
{
    match cell.as_usize() {
        Some(address) => Ok(Argument::Address(address)),
        None => Err(VMError::CannotCastToUsize(cell)),
    }
}

/// Resolves argument `arg_num` of the instruction at the instruction
/// pointer, `raw` being the cell of the argument.
fn argument<T: Cell>(vm: &IntcodeVM<T>, word: u16, arg_num: u8, raw: T) -> (r: Result<
    Argument<T>,
    VMError<T>,
>)
    requires
        arg_num < 3,
        raw.value() == crate::machine::cell_at(vm@.cells, vm@.ip + 1 + arg_num),
    ensures
        resolved(r) == operand::<T>(vm@, word, arg_num as int),
{
    let digit = mode_of(word, arg_num);
    if digit == 0 {
        address_from(raw)
    } else if digit == 1 {
        Ok(Argument::Immediate(raw))
    } else if digit == 2 {
        address_from(raw.wrapping_sum(vm.relative_base()))
    } else {
        Err(VMError::InvalidArgMode { opcode: word % 100, arg_num, arg_mode: digit })
    }
}

/// Resolves argument `arg_num` as the address to write to, `raw` being the
/// cell of the argument.
fn destination_argument<T: Cell>(vm: &IntcodeVM<T>, word: u16, arg_num: u8, raw: T) -> (r: Result<
    usize,
    VMError<T>,
>)
    requires
        arg_num < 3,
        raw.value() == crate::machine::cell_at(vm@.cells, vm@.ip + 1 + arg_num),
    ensures
        resolved_destination(r) == destination::<T>(vm@, word, arg_num as int),
        r matches Ok(address) ==> address < usize::MAX,
{
    match argument(vm, word, arg_num, raw) {
        Ok(Argument::Immediate(_)) => Err(
            VMError::ArgModeCannotBeImmediate { opcode: word % 100, arg_num },
        ),
        Ok(Argument::Address(address)) => {
            if address < usize::MAX {
                Ok(address)
            } else if mode_of(word, arg_num) == 2 {
                Err(VMError::CannotCastToUsize(raw.wrapping_sum(vm.relative_base())))
            } else {
                Err(VMError::CannotCastToUsize(raw))
            }
        },
        Err(error) => Err(error),
    }
}

impl<T: Cell> Instruction<T> {
    /// Decodes the instruction at the instruction pointer of `vm`: the word
    /// there must be a sixteen-bit number whose low two digits are an
    /// opcode, and each argument of that opcode must resolve.
    pub fn from_current_instr_ptr(vm: &IntcodeVM<T>) -> (r: Result<Self, VMError<T>>)
        ensures
            decoded(r) == match crate::cell::narrow_u16(cell_at_ip(vm@)) {
                None => Err(Fault::CannotCastToU16(cell_at_ip(vm@))),
                Some(word) => decode::<T>(vm@, word),
            },
    {
        let instr = vm.get_at_instr_ptr(0);
        let word = match instr.as_u16() {
            Some(word) => word,
            None => {
                return Err(VMError::CannotCastToU16(instr));
            },
        };
        let opcode = word % 100;
        if opcode == 1 {
            Self::create_add(vm, word)
        } else if opcode == 2 {
            Self::create_mul(vm, word)
        } else if opcode == 3 {
            Self::create_input(vm, word)
        } else if opcode == 4 {
            Self::create_output(vm, word)
        } else if opcode == 5 {
            Self::create_jump_if_true(vm, word)
        } else if opcode == 6 {
            Self::create_jump_if_false(vm, word)
        } else if opcode == 7 {
            Self::create_less_than(vm, word)
        } else if opcode == 8 {
            Self::create_equals(vm, word)
        } else if opcode == 9 {
            Self::create_adjust_base(vm, word)
        } else if opcode == 99 {
            Ok(Instruction::Halt)
        } else {
            Err(VMError::UnknownInstruction(word))
        }
    }

    /// The number of cells that the instruction takes, its own cell
    /// included.
    pub fn instruction_width(&self) -> (width: usize)
        ensures
            width == width_of(opcode_number(self@)),
            1 <= width <= 4,
    {
        match self {
            Instruction::Add(_, _, _) => 4,
            Instruction::Mul(_, _, _) => 4,
            Instruction::Input(_) => 2,
            Instruction::Output(_) => 2,
            Instruction::JumpIfTrue(_, _) => 3,
            Instruction::JumpIfFalse(_, _) => 3,
            Instruction::LessThan(_, _, _) => 4,
            Instruction::Equals(_, _, _) => 4,
            Instruction::AdjustBase(_) => 2,
            Instruction::Halt => 1,
        }
    }

    /// Two read arguments and a destination, resolved from left to right.
    fn binary_arguments(vm: &IntcodeVM<T>, word: u16) -> (r: Result<
        (Argument<T>, Argument<T>, usize),
        VMError<T>,
    >)
        ensures
            match r {
                Ok((a, b, dest)) => binary::<T>(vm@, word) == Ok::<_, Fault>(
                    (a@, b@, dest as int),
                ) && dest < usize::MAX,
                Err(error) => binary::<T>(vm@, word) == Err::<(Operand, Operand, int), _>(error@),
            },
    {
        let (arg1, arg2, dest) = vm.get_3_after_intr_ptr();
        let a = argument(vm, word, 0, arg1)?;
        let b = argument(vm, word, 1, arg2)?;
        let dest = destination_argument(vm, word, 2, dest)?;
        Ok((a, b, dest))
    }

    /// Two read arguments, resolved from left to right.
    fn argument_pair(vm: &IntcodeVM<T>, word: u16) -> (r: Result<
        (Argument<T>, Argument<T>),
        VMError<T>,
    >)
        ensures
            match r {
                Ok((a, b)) => pair::<T>(vm@, word) == Ok::<_, Fault>((a@, b@)),
                Err(error) => pair::<T>(vm@, word) == Err::<(Operand, Operand), _>(error@),
            },
    {
        let a = argument(vm, word, 0, vm.get_at_instr_ptr(1))?;
        let b = argument(vm, word, 1, vm.get_at_instr_ptr(2))?;
        Ok((a, b))
    }

    fn create_add(vm: &IntcodeVM<T>, word: u16) -> (r: Result<Self, VMError<T>>)
        requires
            opcode_of(word) == 1,
        ensures
            decoded(r) == decode::<T>(vm@, word),
            r matches Ok(instruction) ==> instruction.writes_below_limit(),
    {
        let (arg1, arg2, dest) = Self::binary_arguments(vm, word)?;
        Ok(Instruction::Add(arg1, arg2, dest))
    }

    fn create_mul(vm: &IntcodeVM<T>, word: u16) -> (r: Result<Self, VMError<T>>)
        requires
            opcode_of(word) == 2,
        ensures
            decoded(r) == decode::<T>(vm@, word),
            r matches Ok(instruction) ==> instruction.writes_below_limit(),
    {
        let (arg1, arg2, dest) = Self::binary_arguments(vm, word)?;
        Ok(Instruction::Mul(arg1, arg2, dest))
    }

    fn create_input(vm: &IntcodeVM<T>, word: u16) -> (r: Result<Self, VMError<T>>)
        requires
            opcode_of(word) == 3,
        ensures
            decoded(r) == decode::<T>(vm@, word),
            r matches Ok(instruction) ==> instruction.writes_below_limit(),
    {
        let dest = destination_argument(vm, word, 0, vm.get_at_instr_ptr(1))?;
        Ok(Instruction::Input(dest))
    }

    fn create_output(vm: &IntcodeVM<T>, word: u16) -> (r: Result<Self, VMError<T>>)
        requires
            opcode_of(word) == 4,
        ensures
            decoded(r) == decode::<T>(vm@, word),
            r matches Ok(instruction) ==> instruction.writes_below_limit(),
    {
        let arg = argument(vm, word, 0, vm.get_at_instr_ptr(1))?;
        Ok(Instruction::Output(arg))
    }

    fn create_jump_if_true(vm: &IntcodeVM<T>, word: u16) -> (r: Result<Self, VMError<T>>)
        requires
            opcode_of(word) == 5,
        ensures
            decoded(r) == decode::<T>(vm@, word),
            r matches Ok(instruction) ==> instruction.writes_below_limit(),
    {
        let (cond, target) = Self::argument_pair(vm, word)?;
        Ok(Instruction::JumpIfTrue(cond, target))
    }

    fn create_jump_if_false(vm: &IntcodeVM<T>, word: u16) -> (r: Result<Self, VMError<T>>)
        requires
            opcode_of(word) == 6,
        ensures
            decoded(r) == decode::<T>(vm@, word),
            r matches Ok(instruction) ==> instruction.writes_below_limit(),
    {
        let (cond, target) = Self::argument_pair(vm, word)?;
        Ok(Instruction::JumpIfFalse(cond, target))
    }

    fn create_less_than(vm: &IntcodeVM<T>, word: u16) -> (r: Result<Self, VMError<T>>)
        requires
            opcode_of(word) == 7,
        ensures
            decoded(r) == decode::<T>(vm@, word),
            r matches Ok(instruction) ==> instruction.writes_below_limit(),
    {
        let (arg1, arg2, dest) = Self::binary_arguments(vm, word)?;
        Ok(Instruction::LessThan(arg1, arg2, dest))
    }

    fn create_equals(vm: &IntcodeVM<T>, word: u16) -> (r: Result<Self, VMError<T>>)
        requires
            opcode_of(word) == 8,
        ensures
            decoded(r) == decode::<T>(vm@, word),
            r matches Ok(instruction) ==> instruction.writes_below_limit(),
    {
        let (arg1, arg2, dest) = Self::binary_arguments(vm, word)?;
        Ok(Instruction::Equals(arg1, arg2, dest))
    }

    fn create_adjust_base(vm: &IntcodeVM<T>, word: u16) -> (r: Result<Self, VMError<T>>)
        requires
            opcode_of(word) == 9,
        ensures
            decoded(r) == decode::<T>(vm@, word),
            r matches Ok(instruction) ==> instruction.writes_below_limit(),
    {
        let arg = argument(vm, word, 0, vm.get_at_instr_ptr(1))?;
        Ok(Instruction::AdjustBase(arg))
    }

    /// Whether the destination, where the instruction has one, is an address
    /// that the store can grow to.
    pub open spec fn writes_below_limit(&self) -> bool {
        match *self {
            Instruction::Add(_, _, dest) => dest < usize::MAX,
            Instruction::Mul(_, _, dest) => dest < usize::MAX,
            Instruction::Input(dest) => dest < usize::MAX,
            Instruction::LessThan(_, _, dest) => dest < usize::MAX,
            Instruction::Equals(_, _, dest) => dest < usize::MAX,
            _ => true,
        }
    }
}

/// The cell at the instruction pointer.
pub open spec fn cell_at_ip(m: crate::machine::Machine) -> int {
    crate::machine::cell_at(m.cells, m.ip)
}

/// The opcode that encodes an operation.
pub open spec fn opcode_number(op: Operation) -> u16 {
    match op {
        Operation::Add(_, _, _) => 1,
        Operation::Multiply(_, _, _) => 2,
        Operation::Input(_) => 3,
        Operation::Output(_) => 4,
        Operation::JumpIfTrue(_, _) => 5,
        Operation::JumpIfFalse(_, _) => 6,
        Operation::LessThan(_, _, _) => 7,
        Operation::Equals(_, _, _) => 8,
        Operation::AdjustBase(_) => 9,
        Operation::Halt => 99,
    }
}

} // verus!
