//! The mathematical model of the machine.
//!
//! A [`Machine`] is the whole state of a virtual machine over unbounded
//! integers, and [`step`] says what one instruction makes of it. Everything
//! that the executable machine promises is stated over these definitions.

use vstd::prelude::*;
use crate::cell::{narrow_u16, Cell};

verus! {

/// The state of a machine.
pub struct Machine {
    /// The stored cells, from address 0. Every address from `cells.len()` on
    /// holds zero.
    pub cells: Seq<int>,
    /// The address of the next instruction.
    pub ip: int,
    /// The relative base register.
    pub base: int,
    /// The value that was supplied and not yet consumed.
    pub input: Option<int>,
}

/// What a run can report to its caller.
pub enum Event {
    Halted,
    Output(int),
    WaitingForInput,
}

/// Why a run can fail.
pub enum Fault {
    UnknownInstruction(u16),
    CannotCastToU16(int),
    CannotCastToUsize(int),
    InvalidArgMode { opcode: u16, arg_num: u8, arg_mode: u8 },
    ArgModeCannotBeImmediate { opcode: u16, arg_num: u8 },
}

/// An argument after resolution: a value to use as it is, or the address of
/// the cell that is meant.
pub enum Operand {
    Immediate(int),
    Address(int),
}

/// An instruction with its arguments resolved. A destination is an address.
pub enum Operation {
    Add(Operand, Operand, int),
    Multiply(Operand, Operand, int),
    Input(int),
    Output(Operand),
    JumpIfTrue(Operand, Operand),
    JumpIfFalse(Operand, Operand),
    LessThan(Operand, Operand, int),
    Equals(Operand, Operand, int),
    AdjustBase(Operand),
    Halt,
}

/// What one instruction does: the machine goes on in a new state, or the run
/// ends with an event or a fault.
pub enum Step {
    Next(Machine),
    Stop(Result<Event, Fault>, Machine),
}

/// The cell at address `a`: zero where nothing is stored.
pub open spec fn cell_at(cells: Seq<int>, a: int) -> int {
    if 0 <= a < cells.len() {
        cells[a]
    } else {
        0
    }
}

/// The cells after `v` was written at address `a`. A write past the end
/// fills the gap with zeros.
pub open spec fn store(cells: Seq<int>, a: int, v: int) -> Seq<int>
    recommends
        0 <= a,
{
    if a < cells.len() {
        cells.update(a, v)
    } else {
        (cells + Seq::new((a - cells.len()) as nat, |i: int| 0int)).push(v)
    }
}

/// The low two decimal digits of an instruction word.
pub open spec fn opcode_of(word: u16) -> u16 {
    word % 100
}

/// The mode digit of argument `arg`, counted from 0: the hundreds digit
/// belongs to the first argument, the thousands digit to the second, the ten
/// thousands digit to the third.
pub open spec fn mode_digit(word: u16, arg: int) -> u8 {
    if arg == 0 {
        ((word / 100) % 10) as u8
    } else if arg == 1 {
        ((word / 1000) % 10) as u8
    } else {
        ((word / 10000) % 10) as u8
    }
}

/// The number of cells that an instruction with this opcode takes, its own
/// cell included; 0 for a number that is no opcode.
pub open spec fn width_of(opcode: u16) -> int {
    if opcode == 1 || opcode == 2 || opcode == 7 || opcode == 8 {
        4
    } else if opcode == 5 || opcode == 6 {
        3
    } else if opcode == 3 || opcode == 4 || opcode == 9 {
        2
    } else if opcode == 99 {
        1
    } else {
        0
    }
}

/// An integer as an address that can be read.
pub open spec fn address_of(v: int) -> Result<Operand, Fault> {
    if 0 <= v <= usize::MAX {
        Ok(Operand::Address(v))
    } else {
        Err(Fault::CannotCastToUsize(v))
    }
}

/// Argument `arg` of the instruction at `m.ip`, resolved by its mode digit.
pub open spec fn operand<T: Cell>(m: Machine, word: u16, arg: int) -> Result<Operand, Fault> {
    let raw = cell_at(m.cells, m.ip + 1 + arg);
    let digit = mode_digit(word, arg);
    if digit == 0 {
        address_of(raw)
    } else if digit == 1 {
        Ok(Operand::Immediate(raw))
    } else if digit == 2 {
        address_of(T::wraps(raw + m.base))
    } else {
        Err(Fault::InvalidArgMode { opcode: opcode_of(word), arg_num: arg as u8, arg_mode: digit })
    }
}

/// Argument `arg` as the address to write to. An immediate argument is no
/// destination, and neither is `usize::MAX`: the store cannot grow to hold
/// that cell.
pub open spec fn destination<T: Cell>(m: Machine, word: u16, arg: int) -> Result<int, Fault> {
    match operand::<T>(m, word, arg) {
        Ok(Operand::Immediate(_)) => Err(
            Fault::ArgModeCannotBeImmediate { opcode: opcode_of(word), arg_num: arg as u8 },
        ),
        Ok(Operand::Address(a)) => if a < usize::MAX {
            Ok(a)
        } else {
            Err(Fault::CannotCastToUsize(a))
        },
        Err(fault) => Err(fault),
    }
}

/// The value that a resolved argument stands for.
pub open spec fn value_of(cells: Seq<int>, operand: Operand) -> int {
    match operand {
        Operand::Immediate(v) => v,
        Operand::Address(a) => cell_at(cells, a),
    }
}

/// Two read arguments and a destination, resolved from left to right.
pub open spec fn binary<T: Cell>(m: Machine, word: u16) -> Result<(Operand, Operand, int), Fault> {
    match operand::<T>(m, word, 0) {
        Err(fault) => Err(fault),
        Ok(a) => match operand::<T>(m, word, 1) {
            Err(fault) => Err(fault),
            Ok(b) => match destination::<T>(m, word, 2) {
                Err(fault) => Err(fault),
                Ok(dest) => Ok((a, b, dest)),
            },
        },
    }
}

/// Two read arguments, resolved from left to right.
pub open spec fn pair<T: Cell>(m: Machine, word: u16) -> Result<(Operand, Operand), Fault> {
    match operand::<T>(m, word, 0) {
        Err(fault) => Err(fault),
        Ok(a) => match operand::<T>(m, word, 1) {
            Err(fault) => Err(fault),
            Ok(b) => Ok((a, b)),
        },
    }
}

/// The instruction that the word at `m.ip` encodes.
pub open spec fn decode<T: Cell>(m: Machine, word: u16) -> Result<Operation, Fault> {
    let opcode = opcode_of(word);
    if opcode == 1 {
        match binary::<T>(m, word) {
            Ok((a, b, dest)) => Ok(Operation::Add(a, b, dest)),
            Err(fault) => Err(fault),
        }
    } else if opcode == 2 {
        match binary::<T>(m, word) {
            Ok((a, b, dest)) => Ok(Operation::Multiply(a, b, dest)),
            Err(fault) => Err(fault),
        }
    } else if opcode == 3 {
        match destination::<T>(m, word, 0) {
            Ok(dest) => Ok(Operation::Input(dest)),
            Err(fault) => Err(fault),
        }
    } else if opcode == 4 {
        match operand::<T>(m, word, 0) {
            Ok(a) => Ok(Operation::Output(a)),
            Err(fault) => Err(fault),
        }
    } else if opcode == 5 {
        match pair::<T>(m, word) {
            Ok((a, b)) => Ok(Operation::JumpIfTrue(a, b)),
            Err(fault) => Err(fault),
        }
    } else if opcode == 6 {
        match pair::<T>(m, word) {
            Ok((a, b)) => Ok(Operation::JumpIfFalse(a, b)),
            Err(fault) => Err(fault),
        }
    } else if opcode == 7 {
        match binary::<T>(m, word) {
            Ok((a, b, dest)) => Ok(Operation::LessThan(a, b, dest)),
            Err(fault) => Err(fault),
        }
    } else if opcode == 8 {
        match binary::<T>(m, word) {
            Ok((a, b, dest)) => Ok(Operation::Equals(a, b, dest)),
            Err(fault) => Err(fault),
        }
    } else if opcode == 9 {
        match operand::<T>(m, word, 0) {
            Ok(a) => Ok(Operation::AdjustBase(a)),
            Err(fault) => Err(fault),
        }
    } else if opcode == 99 {
        Ok(Operation::Halt)
    } else {
        Err(Fault::UnknownInstruction(word))
    }
}

/// The instruction pointer after an instruction of `width` cells. It stops
/// at `usize::MAX`, an address at which no cell can be stored.
pub open spec fn advanced(ip: int, width: int) -> int {
    if ip + width <= usize::MAX {
        ip + width
    } else {
        usize::MAX as int
    }
}

/// The machine after a jump: to `target` where the jump is taken, to the next
/// instruction where it is not. A target that is no address is a fault.
pub open spec fn jump(m: Machine, taken: bool, target: int) -> Step {
    if !taken {
        Step::Next(Machine { ip: advanced(m.ip, 3), ..m })
    } else if 0 <= target <= usize::MAX {
        Step::Next(Machine { ip: target, ..m })
    } else {
        Step::Stop(Err(Fault::CannotCastToUsize(target)), m)
    }
}

/// What a resolved instruction does to the machine.
pub open spec fn execute<T: Cell>(m: Machine, op: Operation) -> Step {
    match op {
        Operation::Add(a, b, dest) => Step::Next(
            Machine {
                cells: store(
                    m.cells,
                    dest,
                    T::wraps(value_of(m.cells, a) + value_of(m.cells, b)),
                ),
                ip: advanced(m.ip, 4),
                ..m
            },
        ),
        Operation::Multiply(a, b, dest) => Step::Next(
            Machine {
                cells: store(
                    m.cells,
                    dest,
                    T::wraps(value_of(m.cells, a) * value_of(m.cells, b)),
                ),
                ip: advanced(m.ip, 4),
                ..m
            },
        ),
        Operation::Input(dest) => match m.input {
            None => Step::Stop(Ok(Event::WaitingForInput), m),
            Some(v) => Step::Next(
                Machine {
                    cells: store(m.cells, dest, v),
                    ip: advanced(m.ip, 2),
                    input: None,
                    ..m
                },
            ),
        },
        Operation::Output(a) => Step::Stop(
            Ok(Event::Output(value_of(m.cells, a))),
            Machine { ip: advanced(m.ip, 2), ..m },
        ),
        Operation::JumpIfTrue(a, b) => jump(
            m,
            value_of(m.cells, a) != 0,
            value_of(m.cells, b),
        ),
        Operation::JumpIfFalse(a, b) => jump(
            m,
            value_of(m.cells, a) == 0,
            value_of(m.cells, b),
        ),
        Operation::LessThan(a, b, dest) => Step::Next(
            Machine {
                cells: store(
                    m.cells,
                    dest,
                    if value_of(m.cells, a) < value_of(m.cells, b) {
                        1
                    } else {
                        0
                    },
                ),
                ip: advanced(m.ip, 4),
                ..m
            },
        ),
        Operation::Equals(a, b, dest) => Step::Next(
            Machine {
                cells: store(
                    m.cells,
                    dest,
                    if value_of(m.cells, a) == value_of(m.cells, b) {
                        1
                    } else {
                        0
                    },
                ),
                ip: advanced(m.ip, 4),
                ..m
            },
        ),
        Operation::AdjustBase(a) => Step::Next(
            Machine {
                base: T::wraps(m.base + value_of(m.cells, a)),
                ip: advanced(m.ip, 2),
                ..m
            },
        ),
        Operation::Halt => Step::Stop(Ok(Event::Halted), m),
    }
}

/// One fetch, decode and execute. A fault leaves the machine as it was
/// before the instruction.
pub open spec fn step<T: Cell>(m: Machine) -> Step {
    let fetched = cell_at(m.cells, m.ip);
    match narrow_u16(fetched) {
        None => Step::Stop(Err(Fault::CannotCastToU16(fetched)), m),
        Some(word) => match decode::<T>(m, word) {
            Err(fault) => Step::Stop(Err(fault), m),
            Ok(op) => execute::<T>(m, op),
        },
    }
}

/// Whether a run from `m` ends after at most `n` instructions that go on.
pub open spec fn stops_within<T: Cell>(m: Machine, n: nat) -> bool
    decreases n,
{
    match step::<T>(m) {
        Step::Stop(_, _) => true,
        Step::Next(next) => n > 0 && stops_within::<T>(next, (n - 1) as nat),
    }
}

/// Whether a run from `m` ever returns: whether the program reaches a halt,
/// an output, an input that it lacks, or a fault.
pub open spec fn reaches_event<T: Cell>(m: Machine) -> bool {
    exists|n: nat| stops_within::<T>(m, n)
}

/// What a run from `m` reports and the state that it leaves, given that it
/// ends within `n` instructions.
pub open spec fn run_within<T: Cell>(m: Machine, n: nat) -> (Result<Event, Fault>, Machine)
    decreases n,
{
    match step::<T>(m) {
        Step::Stop(outcome, after) => (outcome, after),
        Step::Next(next) => if n > 0 {
            run_within::<T>(next, (n - 1) as nat)
        } else {
            (Ok(Event::Halted), m)
        },
    }
}

/// What a run from `m` reports and the state that it leaves. It is only
/// meaningful where `reaches_event(m)`.
pub open spec fn run_of<T: Cell>(m: Machine) -> (Result<Event, Fault>, Machine) {
    run_within::<T>(m, choose|n: nat| stops_within::<T>(m, n))
}

/// The machine after `n` instructions, or after fewer where the run ended
/// earlier.
pub open spec fn after_steps<T: Cell>(m: Machine, n: nat) -> Machine
    decreases n,
{
    if n == 0 {
        m
    } else {
        match step::<T>(m) {
            Step::Stop(_, _) => m,
            Step::Next(next) => after_steps::<T>(next, (n - 1) as nat),
        }
    }
}

/// A longer allowance does not change whether or how a run ends.
pub proof fn lemma_run_within_is_stable<T: Cell>(m: Machine, n: nat, k: nat)
    requires
        stops_within::<T>(m, n),
        n <= k,
    ensures
        stops_within::<T>(m, k),
        run_within::<T>(m, k) == run_within::<T>(m, n),
    decreases n,
{
    match step::<T>(m) {
        Step::Stop(_, _) => {},
        Step::Next(next) => {
            lemma_run_within_is_stable::<T>(next, (n - 1) as nat, (k - 1) as nat);
        },
    }
}

/// Any allowance within which the run ends gives the run's result.
pub proof fn lemma_run_of_is_run_within<T: Cell>(m: Machine, n: nat)
    requires
        stops_within::<T>(m, n),
    ensures
        reaches_event::<T>(m),
        run_of::<T>(m) == run_within::<T>(m, n),
{
    let c = choose|c: nat| stops_within::<T>(m, c);
    if c <= n {
        lemma_run_within_is_stable::<T>(m, c, n);
    } else {
        lemma_run_within_is_stable::<T>(m, n, c);
    }
}

} // verus!
