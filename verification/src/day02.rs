//! The gravity assist program: the program is run with a noun and a verb in
//! cells 1 and 2, and leaves its result in cell 0.

use vstd::prelude::*;
use crate::machine::{cell_at, store};
use crate::memory::Memory;
use crate::session::{
    loaded, next_event, observe, outcome, program_in, read_memory, Failure, SessionError,
};
use crate::vm::IntcodeVM;

verus! {

/// The result that the second part of the puzzle looks for.
pub const TARGET_RESULT: i64 = 19690720;

/// What the program leaves in cell 0 when it is run, up to its first event,
/// with `noun` in cell 1 and `verb` in cell 2.
pub open spec fn result_of(program: Seq<int>, noun: int, verb: int) -> Result<int, Failure> {
    match next_event(loaded(store(store(program, 1, noun), 2, verb))) {
        Err(failure) => Err(failure),
        Ok((_, after)) => Ok(cell_at(after.cells, 0)),
    }
}

/// Runs a program with a noun and a verb, and returns what it leaves in cell
/// 0.
pub fn run_with(memory: Memory<i64>, noun: i64, verb: i64) -> (r: Result<i64, SessionError>)
    ensures
        outcome(r) == result_of(memory@, noun as int, verb as int),
{
    let mut memory = memory;
    memory.set(1, noun);
    memory.set(2, verb);

    let mut vm = IntcodeVM::new(memory);
    observe(&mut vm)?;

    Ok(vm.into_memory().get(0))
}

/// What the first part of the puzzle gives for the text of a program: its
/// result for the noun 12 and the verb 2.
pub open spec fn restored(input: Seq<char>) -> Result<int, Failure> {
    match program_in(input) {
        Err(failure) => Err(failure),
        Ok(program) => result_of(program, 12, 2),
    }
}

/// The result of the program for the noun 12 and the verb 2.
pub fn part1(input: &str) -> (r: Result<i64, SessionError>)
    ensures
        outcome(r) == restored(input@),
{
    run_with(read_memory(input)?, 12, 2)
}

/// The first pair of a noun and a verb, both from 0 to 99, for which the
/// program gives `target`, as a hundred times the noun plus the verb. The
/// pairs are tried from `from` on, a pair `(noun, verb)` being the number
/// `100 * noun + verb`. The first run that fails decides the failure.
pub open spec fn search(program: Seq<int>, target: int, from: int) -> Result<int, Failure>
    decreases 10000 - from,
{
    if from < 0 || from >= 10000 {
        Err(Failure::NoAnswer)
    } else {
        match result_of(program, from / 100, from % 100) {
            Err(failure) => Err(failure),
            Ok(result) => if result == target {
                Ok(from)
            } else {
                search(program, target, from + 1)
            },
        }
    }
}

/// What the second part of the puzzle gives for the text of a program.
pub open spec fn completed(input: Seq<char>) -> Result<int, Failure> {
    match program_in(input) {
        Err(failure) => Err(failure),
        Ok(program) => search(program, TARGET_RESULT as int, 0),
    }
}

/// The noun and the verb for which the program gives 19690720, as a hundred
/// times the noun plus the verb.
pub fn part2(input: &str) -> (r: Result<i64, SessionError>)
    ensures
        outcome(r) == completed(input@),
{
    let memory = read_memory(input)?;
    let ghost whole = completed(input@);

    let mut noun: i64 = 0;
    while noun <= 99
        invariant
            0 <= noun <= 100,
            search(memory@, TARGET_RESULT as int, 100 * noun) == whole,
            whole == completed(input@),
        decreases 100 - noun,
    {
        let mut verb: i64 = 0;
        while verb <= 99
            invariant
                0 <= noun <= 99,
                0 <= verb <= 100,
                search(memory@, TARGET_RESULT as int, 100 * noun + verb) == whole,
                whole == completed(input@),
            decreases 100 - verb,
        {
            let result = run_with(memory.clone(), noun, verb)?;
            if result == TARGET_RESULT {
                return Ok(100 * noun + verb);
            }
            verb += 1;
        }
        noun += 1;
    }
    Err(SessionError::NoAnswer)
}

} // verus!
