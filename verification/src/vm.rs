//! The execution engine.

use vstd::prelude::*;
use crate::cell::Cell;
use crate::error::VMError;
use crate::instruction::{Argument, Instruction};
use crate::machine::{
    advanced, after_steps, cell_at, lemma_run_of_is_run_within, reaches_event, run_of,
    run_within, step, stops_within, Event, Fault, Machine, Step,
};
use crate::memory::Memory;
use crate::number::{numbers_of, NumberError};
use crate::text::split_on;

verus! {

/// What a run reports when it returns without a failure.
#[derive(Debug, Clone, Copy, PartialEq, Eq)]
pub enum VMResult<T: Cell> {
    /// The program reached a halt instruction.
    Halted,
    /// The program emitted this value.
    Output(T),
    /// The program asked for a value, and none has been supplied.
    WaitingForInput,
}

impl<T: Cell> View for VMResult<T> {
    type V = Event;

    open spec fn view(&self) -> Event {
        match *self {
            VMResult::Halted => Event::Halted,
            VMResult::Output(cell) => Event::Output(cell.value()),
            VMResult::WaitingForInput => Event::WaitingForInput,
        }
    }
}

/// What the result of a run says in the terms of the model.
pub open spec fn outcome_of<T: Cell>(r: Result<VMResult<T>, VMError<T>>) -> Result<Event, Fault> {
    match r {
        Ok(event) => Ok(event@),
        Err(error) => Err(error@),
    }
}

/// The integer that an optional cell stands for, if there is one.
pub open spec fn optional_value<T: Cell>(cell: Option<T>) -> Option<int> {
    match cell {
        Some(c) => Some(c.value()),
        None => None,
    }
}

/// A virtual machine: a memory, an instruction pointer, a relative base and
/// at most one value that waits to be read by the program.
///
/// The view of a machine is its state in the model.
#[derive(Debug)]
pub struct IntcodeVM<T: Cell> {
    memory: Memory<T>,
    instruction_ptr: usize,
    relative_base: T,
    next_input: Option<T>,
}

impl<T: Cell> View for IntcodeVM<T> {
    type V = Machine;

    closed spec fn view(&self) -> Machine {
        Machine {
            cells: self.memory@,
            ip: self.instruction_ptr as int,
            base: self.relative_base.value(),
            input: optional_value(self.next_input),
        }
    }
}

impl<T: Cell> Clone for IntcodeVM<T> {
    /// A machine of its own in the same state, with a memory of its own.
    fn clone(&self) -> (copy: Self)
        ensures
            copy@ == self@,
    {
        IntcodeVM {
            memory: self.memory.clone(),
            instruction_ptr: self.instruction_ptr,
            relative_base: self.relative_base,
            next_input: self.next_input,
        }
    }
}

impl<T: Cell> From<Vec<T>> for IntcodeVM<T> {
    /// A machine that is about to execute the first of the given cells.
    fn from(cells: Vec<T>) -> (vm: Self) {
        IntcodeVM::new(Memory::from_vec(cells))
    }
}

impl<T: Cell> vstd::std_specs::convert::FromSpecImpl<Vec<T>> for IntcodeVM<T> {
    open spec fn obeys_from_spec() -> bool {
        true
    }

    open spec fn from_spec(cells: Vec<T>) -> Self {
        IntcodeVM::starting(Memory::holding(cells))
    }
}

impl<T: Cell> From<Memory<T>> for IntcodeVM<T> {
    /// A machine that is about to execute the first cell of `memory`.
    fn from(memory: Memory<T>) -> (vm: Self) {
        IntcodeVM::new(memory)
    }
}

impl<T: Cell> vstd::std_specs::convert::FromSpecImpl<Memory<T>> for IntcodeVM<T> {
    open spec fn obeys_from_spec() -> bool {
        true
    }

    open spec fn from_spec(memory: Memory<T>) -> Self {
        IntcodeVM::starting(memory)
    }
}

impl<T: Cell> core::str::FromStr for IntcodeVM<T> {
    type Err = NumberError;

    /// Reads a memory as [`Memory::parse`] does, and makes a machine that is
    /// about to execute its first cell.
    fn from_str(s: &str) -> (r: Result<Self, NumberError>)
        ensures
            match numbers_of(split_on(s@, ','), T::lowest(), T::highest()) {
                Ok(values) => r matches Ok(vm) && vm@ == (Machine {
                    cells: values,
                    ip: 0,
                    base: 0,
                    input: None,
                }),
                Err(error) => r matches Err(e) && e == error,
            },
    {
        IntcodeVM::parse(s)
    }
}

impl<T: Cell> IntcodeVM<T> {
    /// The machine that is about to execute the first cell of `memory`.
    pub closed spec fn starting(memory: Memory<T>) -> Self {
        IntcodeVM {
            memory,
            instruction_ptr: 0,
            relative_base: T::zero_spec(),
            next_input: None,
        }
    }

    /// Reads a memory as [`Memory::parse`] does, and makes a machine that is
    /// about to execute its first cell.
    pub fn parse(s: &str) -> (r: Result<Self, NumberError>)
        ensures
            match numbers_of(split_on(s@, ','), T::lowest(), T::highest()) {
                Ok(values) => r matches Ok(vm) && vm@ == (Machine {
                    cells: values,
                    ip: 0,
                    base: 0,
                    input: None,
                }),
                Err(error) => r matches Err(e) && e == error,
            },
    {
        match Memory::parse(s) {
            Ok(memory) => Ok(IntcodeVM::new(memory)),
            Err(error) => Err(error),
        }
    }

    /// What the machine that is about to execute the first cell of `memory`
    /// is.
    pub proof fn lemma_starting(memory: Memory<T>)
        ensures
            IntcodeVM::starting(memory)@ == (Machine {
                cells: memory@,
                ip: 0,
                base: 0,
                input: None,
            }),
    {
        T::lemma_zero_spec_is_zero();
    }

    /// A machine that is about to execute the cell at address 0 of `memory`,
    /// with relative base 0 and no value supplied.
    pub fn new(memory: Memory<T>) -> (vm: Self)
        ensures
            vm == IntcodeVM::starting(memory),
            vm@ == (Machine { cells: memory@, ip: 0, base: 0, input: None }),
    {
        IntcodeVM { memory, instruction_ptr: 0, relative_base: T::zero(), next_input: None }
    }

    /// Supplies the value that the next input instruction reads. Returns the
    /// value that was supplied before and never read, which is thereby lost.
    pub fn set_next_input(&mut self, value: T) -> (replaced: Option<T>)
        ensures
            final(self)@ == (Machine { input: Some(value.value()), ..old(self)@ }),
            optional_value(replaced) == old(self)@.input,
    {
        let replaced = self.next_input;
        self.next_input = Some(value);
        replaced
    }

    /// The value that was supplied and not yet read, if there is one.
    pub fn get_next_input(&self) -> (pending: &Option<T>)
        ensures
            optional_value(*pending) == self@.input,
    {
        &self.next_input
    }

    /// Gives up the machine and hands out its memory.
    pub fn into_memory(self) -> (memory: Memory<T>)
        ensures
            memory@ == self@.cells,
    {
        self.memory
    }

    /// Executes the program from the instruction pointer on until it halts,
    /// emits a value or asks for a value that was not supplied, and reports
    /// which. After an output the machine stands behind the output
    /// instruction; at a halt and at a missing input it stays on the
    /// instruction, so that a halted machine halts again and an input
    /// instruction is tried again once a value is there.
    ///
    /// A failure ends the run with the machine as it was before the
    /// instruction that failed.
    ///
    /// The run must come to an end: a program that never reaches one of
    /// these has no result. [`IntcodeVM::run_for`] runs any program for a
    /// bounded number of instructions.
    pub fn run(&mut self) -> (r: Result<VMResult<T>, VMError<T>>)
        requires
            reaches_event::<T>(old(self)@),
        ensures
            (outcome_of(r), final(self)@) == run_of::<T>(old(self)@),
    {
        let ghost mut fuel: nat = choose|n: nat| stops_within::<T>(self@, n);
        loop
            invariant
                stops_within::<T>(self@, fuel),
                run_within::<T>(self@, fuel) == run_of::<T>(old(self)@),
            decreases fuel,
        {
            match self.step() {
                Some(r) => {
                    return r;
                },
                None => {
                    proof {
                        fuel = (fuel - 1) as nat;
                    }
                },
            }
        }
    }

    /// Executes at most `budget` instructions. Returns what the run reports
    /// where one of them ends it: the result and the machine are then those
    /// of [`IntcodeVM::run`]. Returns `None` where none does: the machine has
    /// then executed `budget` instructions and can be run further.
    pub fn run_for(&mut self, budget: u64) -> (r: Option<Result<VMResult<T>, VMError<T>>>)
        ensures
            r is Some <==> budget > 0 && stops_within::<T>(old(self)@, (budget - 1) as nat),
            r matches Some(outcome) ==> (outcome_of(outcome), final(self)@) == run_of::<T>(
                old(self)@,
            ),
            r is None ==> final(self)@ == after_steps::<T>(old(self)@, budget as nat),
    {
        let mut left: u64 = budget;
        while left > 0
            invariant
                left <= budget,
                left > 0 ==> (stops_within::<T>(self@, (left - 1) as nat) <==> stops_within::<T>(
                    old(self)@,
                    (budget - 1) as nat,
                )),
                left > 0 && stops_within::<T>(self@, (left - 1) as nat) ==> run_within::<T>(
                    self@,
                    (left - 1) as nat,
                ) == run_within::<T>(old(self)@, (budget - 1) as nat),
                left == 0 && budget > 0 ==> !stops_within::<T>(old(self)@, (budget - 1) as nat),
                after_steps::<T>(self@, left as nat) == after_steps::<T>(
                    old(self)@,
                    budget as nat,
                ) || (budget > 0 && stops_within::<T>(old(self)@, (budget - 1) as nat)),
            decreases left,
        {
            match self.step() {
                Some(outcome) => {
                    proof {
                        lemma_run_of_is_run_within::<T>(old(self)@, (budget - 1) as nat);
                    }
                    return Some(outcome);
                },
                None => {
                    left = left - 1;
                },
            }
        }
        None
    }

    /// Fetches, decodes and executes one instruction. Returns what the
    /// instruction reports where it ends the run, and `None` where the
    /// machine goes on.
    fn step(&mut self) -> (r: Option<Result<VMResult<T>, VMError<T>>>)
        ensures
            match step::<T>(old(self)@) {
                Step::Next(next) => r is None && final(self)@ == next,
                Step::Stop(outcome, after) => r matches Some(reported) && outcome_of(reported)
                    == outcome && final(self)@ == after,
            },
    {
        let instruction = match Instruction::from_current_instr_ptr(self) {
            Ok(instruction) => instruction,
            Err(error) => {
                return Some(Err(error));
            },
        };
        let instruction_width = instruction.instruction_width();
        match instruction {
            Instruction::Add(arg1, arg2, dest) => {
                let result = self.value_of_argument(arg1).wrapping_sum(
                    self.value_of_argument(arg2),
                );
                self.memory.set(dest, result);
            },
            Instruction::Mul(arg1, arg2, dest) => {
                let result = self.value_of_argument(arg1).wrapping_product(
                    self.value_of_argument(arg2),
                );
                self.memory.set(dest, result);
            },
            Instruction::Input(dest) => {
                match self.next_input {
                    None => {
                        return Some(Ok(VMResult::WaitingForInput));
                    },
                    Some(value) => {
                        self.memory.set(dest, value);
                        self.next_input = None;
                    },
                }
            },
            Instruction::Output(arg) => {
                let value = self.value_of_argument(arg);
                self.increment_instr_ptr_by(instruction_width);
                return Some(Ok(VMResult::Output(value)));
            },
            Instruction::JumpIfTrue(cond, target) => {
                if !self.value_of_argument(cond).is_same_as(T::zero()) {
                    return self.jump_to(self.value_of_argument(target));
                }
            },
            Instruction::JumpIfFalse(cond, target) => {
                if self.value_of_argument(cond).is_same_as(T::zero()) {
                    return self.jump_to(self.value_of_argument(target));
                }
            },
            Instruction::LessThan(arg1, arg2, dest) => {
                let result = if self.value_of_argument(arg1).is_less_than(
                    self.value_of_argument(arg2),
                ) {
                    T::one()
                } else {
                    T::zero()
                };
                self.memory.set(dest, result);
            },
            Instruction::Equals(arg1, arg2, dest) => {
                let result = if self.value_of_argument(arg1).is_same_as(
                    self.value_of_argument(arg2),
                ) {
                    T::one()
                } else {
                    T::zero()
                };
                self.memory.set(dest, result);
            },
            Instruction::AdjustBase(arg) => {
                self.relative_base = self.relative_base.wrapping_sum(self.value_of_argument(arg));
            },
            Instruction::Halt => {
                return Some(Ok(VMResult::Halted));
            },
        }
        self.increment_instr_ptr_by(instruction_width);
        None
    }

    /// Sets the instruction pointer to the address that `target` stands for.
    fn jump_to(&mut self, target: T) -> (r: Option<Result<VMResult<T>, VMError<T>>>)
        ensures
            match crate::cell::narrow_usize(target.value()) {
                Some(address) => r is None && final(self)@ == (Machine {
                    ip: address as int,
                    ..old(self)@
                }),
                None => r matches Some(Err(error)) && error@ == Fault::CannotCastToUsize(
                    target.value(),
                ) && final(self)@ == old(self)@,
            },
    {
        match target.as_usize() {
            Some(address) => {
                self.instruction_ptr = address;
                None
            },
            None => Some(Err(VMError::CannotCastToUsize(target))),
        }
    }

    /// The value that a resolved argument stands for.
    fn value_of_argument(&self, argument: Argument<T>) -> (cell: T)
        ensures
            cell.value() == crate::machine::value_of(self@.cells, argument@),
    {
        match argument {
            Argument::Immediate(value) => value,
            Argument::Address(address) => self.memory.get(address),
        }
    }

    /// Moves the instruction pointer `incr` cells on. It stops at
    /// `usize::MAX`, where no cell can be stored.
    pub(crate) fn increment_instr_ptr_by(&mut self, incr: usize)
        ensures
            final(self)@ == (Machine { ip: advanced(old(self)@.ip, incr as int), ..old(self)@ }),
    {
        self.instruction_ptr = self.instruction_ptr.saturating_add(incr);
    }

    /// The cell that lies `offset` cells after the instruction pointer.
    pub(crate) fn get_at_instr_ptr(&self, offset: usize) -> (cell: T)
        ensures
            cell.value() == cell_at(self@.cells, self@.ip + offset),
    {
        match self.instruction_ptr.checked_add(offset) {
            Some(address) => self.memory.get(address),
            None => {
                proof {
                    self.memory.lemma_len_fits_usize();
                }
                T::zero()
            },
        }
    }

    /// The three cells that follow the instruction pointer.
    pub(crate) fn get_3_after_intr_ptr(&self) -> (cells: (T, T, T))
        ensures
            cells.0.value() == cell_at(self@.cells, self@.ip + 1),
            cells.1.value() == cell_at(self@.cells, self@.ip + 2),
            cells.2.value() == cell_at(self@.cells, self@.ip + 3),
    {
        (self.get_at_instr_ptr(1), self.get_at_instr_ptr(2), self.get_at_instr_ptr(3))
    }

    /// The relative base register.
    pub(crate) fn relative_base(&self) -> (base: T)
        ensures
            base.value() == self@.base,
    {
        self.relative_base
    }
}

} // verus!
