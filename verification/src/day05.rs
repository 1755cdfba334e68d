//! The diagnostic program of the air conditioner and the thermal radiators.

use vstd::prelude::*;
use crate::machine::{Event, Machine};
use crate::session::{
    ask, loaded, next_event, observe, outcome, program_in, read_memory, single_answer, supplied,
    Failure, SessionError,
};
use crate::vm::{IntcodeVM, VMResult};

verus! {

/// The most outputs that the diagnostic program is read for.
pub const OUTPUT_LIMIT: u64 = u64::MAX;

/// The last output of a program that reports on its tests: every output but
/// the last must be 0, and the program must not ask for more input. `last`
/// is the output before, and `rounds` the number of outputs that are still
/// read.
pub open spec fn last_diagnostic(m: Machine, last: int, rounds: nat) -> Result<int, Failure>
    decreases rounds,
{
    if rounds == 0 {
        Err(Failure::OutOfSteps)
    } else {
        match next_event(m) {
            Err(failure) => Err(failure),
            Ok((Event::WaitingForInput, _)) => Err(Failure::Unexpected(Event::WaitingForInput)),
            Ok((Event::Output(diagnostic), after)) => if last != 0 {
                Err(Failure::Unexpected(Event::Output(diagnostic)))
            } else {
                last_diagnostic(after, diagnostic, (rounds - 1) as nat)
            },
            Ok((Event::Halted, _)) => Ok(last),
        }
    }
}

/// What the first part of the puzzle gives for the text of a program: the
/// diagnostic code that the program reports for the input 1.
pub open spec fn diagnostic_code(input: Seq<char>) -> Result<int, Failure> {
    match program_in(input) {
        Err(failure) => Err(failure),
        Ok(program) => last_diagnostic(supplied(loaded(program), 1), 0, OUTPUT_LIMIT as nat),
    }
}

/// Runs the diagnostic program on the input 1, and returns the diagnostic
/// code: its last output. Every output before it must be 0.
pub fn part1(input: &str) -> (r: Result<i64, SessionError>)
    ensures
        outcome(r) == diagnostic_code(input@),
{
    let mut last_diagnostic: i64 = 0;
    let mut vm = IntcodeVM::new(read_memory(input)?);
    vm.set_next_input(1);
    let ghost whole = diagnostic_code(input@);

    let mut rounds: u64 = OUTPUT_LIMIT;
    while rounds > 0
        invariant
            crate::day05::last_diagnostic(vm@, last_diagnostic as int, rounds as nat) == whole,
            whole == diagnostic_code(input@),
        decreases rounds,
    {
        match observe(&mut vm)? {
            VMResult::WaitingForInput => {
                return Err(SessionError::Unexpected(VMResult::WaitingForInput));
            },
            VMResult::Output(diagnostic) => {
                if last_diagnostic != 0 {
                    return Err(SessionError::Unexpected(VMResult::Output(diagnostic)));
                }
                last_diagnostic = diagnostic;
            },
            VMResult::Halted => {
                return Ok(last_diagnostic);
            },
        }
        rounds -= 1;
    }
    Err(SessionError::OutOfSteps)
}

/// What the second part of the puzzle gives for the text of a program: the
/// one output of the program for the input 5.
pub open spec fn radiator_code(input: Seq<char>) -> Result<int, Failure> {
    match program_in(input) {
        Err(failure) => Err(failure),
        Ok(program) => single_answer(program, 5),
    }
}

/// Runs the diagnostic program on the input 5, and returns its one output.
pub fn part2(input: &str) -> (r: Result<i64, SessionError>)
    ensures
        outcome(r) == radiator_code(input@),
{
    ask(read_memory(input)?, 5)
}

} // verus!
