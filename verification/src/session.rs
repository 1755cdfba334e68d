//! Driving a machine from a program of its host: running it to its next
//! event within a bound, and naming what went wrong.

use vstd::prelude::*;
use crate::error::VMError;
use crate::machine::{run_of, stops_within, Event, Fault, Machine};
use crate::memory::{values_of, Memory};
use crate::number::{numbers_of, NumberError};
use crate::text::split_on;
use crate::vm::{IntcodeVM, VMResult};

verus! {

/// The most instructions that a host lets a machine execute in one run.
pub const STEP_LIMIT: u64 = u64::MAX;

/// Why a host gave up on a program, in the terms of the model.
pub enum Failure {
    /// The machine failed.
    Machine(Fault),
    /// A run did not end within [`STEP_LIMIT`] instructions, or the program
    /// went on for more rounds than the host allows.
    OutOfSteps,
    /// The program did something other than the host expected of it.
    Unexpected(Event),
    /// The text of the program is no list of numbers.
    Parse(NumberError),
    /// The host found nothing of what it was looking for.
    NoAnswer,
}

/// Why a host gave up on a program.
#[derive(Debug, Clone, Copy, PartialEq, Eq)]
pub enum SessionError {
    /// The machine failed.
    Machine(VMError<i64>),
    /// A run did not end within [`STEP_LIMIT`] instructions, or the program
    /// went on for more rounds than the host allows.
    OutOfSteps,
    /// The program did something other than the host expected of it.
    Unexpected(VMResult<i64>),
    /// The text of the program is no list of numbers.
    Parse(NumberError),
    /// The host found nothing of what it was looking for.
    NoAnswer,
}

impl View for SessionError {
    type V = Failure;

    open spec fn view(&self) -> Failure {
        match *self {
            SessionError::Machine(error) => Failure::Machine(error@),
            SessionError::OutOfSteps => Failure::OutOfSteps,
            SessionError::Unexpected(event) => Failure::Unexpected(event@),
            SessionError::Parse(error) => Failure::Parse(error),
            SessionError::NoAnswer => Failure::NoAnswer,
        }
    }
}

/// What the next run of a machine reports, and the machine after it. A run
/// that does not end within [`STEP_LIMIT`] instructions is given up.
#[verifier::opaque]
pub open spec fn next_event(m: Machine) -> Result<(Event, Machine), Failure> {
    if stops_within::<i64>(m, (STEP_LIMIT - 1) as nat) {
        match run_of::<i64>(m) {
            (Ok(event), after) => Ok((event, after)),
            (Err(fault), _) => Err(Failure::Machine(fault)),
        }
    } else {
        Err(Failure::OutOfSteps)
    }
}

/// The machine that is about to execute the first cell of a program.
pub open spec fn loaded(program: Seq<int>) -> Machine {
    Machine { cells: program, ip: 0, base: 0, input: None }
}

/// The machine after a value was supplied to it.
pub open spec fn supplied(m: Machine, value: int) -> Machine {
    Machine { input: Some(value), ..m }
}

/// The integers of a program.
pub open spec fn program_of(cells: Seq<i64>) -> Seq<int> {
    values_of(cells)
}

/// Runs the machine to its next event, for at most [`STEP_LIMIT`]
/// instructions.
pub fn observe(vm: &mut IntcodeVM<i64>) -> (r: Result<VMResult<i64>, SessionError>)
    ensures
        match next_event(old(vm)@) {
            Ok((event, after)) => r matches Ok(reported) && reported@ == event && final(vm)@
                == after,
            Err(failure) => r matches Err(error) && error@ == failure,
        },
{
    reveal(next_event);
    match vm.run_for(STEP_LIMIT) {
        Some(Ok(event)) => Ok(event),
        Some(Err(error)) => Err(SessionError::Machine(error)),
        None => Err(SessionError::OutOfSteps),
    }
}

/// A copy of a program as a vector of its own.
pub fn copy_of(program: &[i64]) -> (copy: Vec<i64>)
    ensures
        copy@ == program@,
{
    let mut copy: Vec<i64> = Vec::new();
    let mut i: usize = 0;
    while i < program.len()
        invariant
            i <= program@.len(),
            copy@ == program@.take(i as int),
        decreases program@.len() - i,
    {
        copy.push(program[i]);
        i += 1;
    }
    copy
}

/// A machine that is about to execute the first cell of a copy of
/// `program`.
pub fn load(program: &[i64]) -> (vm: IntcodeVM<i64>)
    ensures
        vm@ == loaded(program_of(program@)),
{
    IntcodeVM::new(Memory::from_vec(copy_of(program)))
}

/// The program that a text stands for: decimal numbers with commas between
/// them.
pub open spec fn program_in(input: Seq<char>) -> Result<Seq<int>, Failure> {
    match numbers_of(split_on(input, ','), i64::MIN as int, i64::MAX as int) {
        Ok(values) => Ok(values),
        Err(error) => Err(Failure::Parse(error)),
    }
}

/// Reads the memory of a program from a text.
pub fn read_memory(input: &str) -> (r: Result<Memory<i64>, SessionError>)
    ensures
        match program_in(input@) {
            Ok(values) => r matches Ok(memory) && memory@ == values,
            Err(failure) => r matches Err(error) && error@ == failure,
        },
{
    match Memory::parse(input) {
        Ok(memory) => Ok(memory),
        Err(error) => Err(SessionError::Parse(error)),
    }
}

/// What a result says in the terms of the model.
pub open spec fn outcome(r: Result<i64, SessionError>) -> Result<int, Failure> {
    match r {
        Ok(value) => Ok(value as int),
        Err(error) => Err(error@),
    }
}

/// What a diagnostic program answers to `input`: one output, after which it
/// must halt.
pub open spec fn single_answer(program: Seq<int>, input: int) -> Result<int, Failure> {
    match next_event(supplied(loaded(program), input)) {
        Err(failure) => Err(failure),
        Ok((Event::Output(out), answered)) => match next_event(answered) {
            Err(failure) => Err(failure),
            Ok((Event::Halted, _)) => Ok(out),
            Ok((other, _)) => Err(Failure::Unexpected(other)),
        },
        Ok((other, _)) => Err(Failure::Unexpected(other)),
    }
}

/// Runs a program that answers one input with one output and halts.
pub fn ask(memory: Memory<i64>, input: i64) -> (r: Result<i64, SessionError>)
    ensures
        outcome(r) == single_answer(memory@, input as int),
{
    let mut vm = IntcodeVM::new(memory);
    vm.set_next_input(input);

    let result = match observe(&mut vm)? {
        VMResult::Output(out) => out,
        other => {
            return Err(SessionError::Unexpected(other));
        },
    };

    match observe(&mut vm)? {
        VMResult::Halted => Ok(result),
        other => Err(SessionError::Unexpected(other)),
    }
}

} // verus!
