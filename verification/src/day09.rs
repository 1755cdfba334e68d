//! The sensor boost program.

use vstd::prelude::*;
use crate::session::{
    ask, outcome, program_in, read_memory, single_answer, Failure, SessionError,
};

verus! {

/// What the program in a text answers to the number of a part of the puzzle.
pub open spec fn answer(input: Seq<char>, part: int) -> Result<int, Failure> {
    match program_in(input) {
        Err(failure) => Err(failure),
        Ok(program) => single_answer(program, part),
    }
}

/// Runs the program on the number of a part of the puzzle, and returns its
/// one output.
pub fn solve(input: &str, part: i64) -> (r: Result<i64, SessionError>)
    ensures
        outcome(r) == answer(input@, part as int),
{
    ask(read_memory(input)?, part)
}

/// The output of the program in test mode.
pub fn part1(input: &str) -> (r: Result<i64, SessionError>)
    ensures
        outcome(r) == answer(input@, 1),
{
    solve(input, 1)
}

/// The output of the program in sensor boost mode.
pub fn part2(input: &str) -> (r: Result<i64, SessionError>)
    ensures
        outcome(r) == answer(input@, 2),
{
    solve(input, 2)
}

} // verus!
