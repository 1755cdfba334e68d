//! What holds of every run of the machine.

use vstd::prelude::*;
use crate::cell::{narrow_u16, Cell};
use crate::machine::{
    after_steps, cell_at, lemma_run_of_is_run_within, opcode_of, reaches_event, run_of,
    run_within, step, stops_within, Event, Fault, Machine, Step,
};

verus! {

/// The machine after `k` runs, one after the other.
pub open spec fn after_runs<T: Cell>(m: Machine, k: nat) -> Machine
    decreases k,
{
    if k == 0 {
        m
    } else {
        after_runs::<T>(run_of::<T>(m).1, (k - 1) as nat)
    }
}

/// Whether the cell at the instruction pointer encodes an addition, a
/// multiplication or a halt.
pub open spec fn at_arithmetic_or_halt(m: Machine) -> bool {
    match narrow_u16(cell_at(m.cells, m.ip)) {
        None => false,
        Some(word) => opcode_of(word) == 1 || opcode_of(word) == 2 || opcode_of(word) == 99,
    }
}

/// Whether every instruction that a run from `m` comes to is an addition, a
/// multiplication or a halt.
pub open spec fn only_arithmetic<T: Cell>(m: Machine) -> bool {
    forall|i: nat| at_arithmetic_or_halt(#[trigger] after_steps::<T>(m, i))
}

/// An instruction that reports a halt leaves the machine as it was.
pub proof fn lemma_halt_changes_nothing<T: Cell>(m: Machine)
    ensures
        step::<T>(m) matches Step::Stop(Ok(Event::Halted), after) ==> after == m,
{
}

/// A run that reports a halt leaves a machine that stands on a halt
/// instruction.
proof fn lemma_halted_run_ends_on_halt<T: Cell>(m: Machine, n: nat)
    requires
        stops_within::<T>(m, n),
        run_within::<T>(m, n).0 == Ok::<Event, Fault>(Event::Halted),
    ensures
        step::<T>(run_within::<T>(m, n).1) == Step::Stop(
            Ok(Event::Halted),
            run_within::<T>(m, n).1,
        ),
    decreases n,
{
    if let Step::Next(next) = step::<T>(m) {
        lemma_halted_run_ends_on_halt::<T>(next, (n - 1) as nat);
    }
}

/// Halting is idempotent: once a run has reported a halt, every further run
/// comes to an end, reports a halt again, and changes nothing, neither in the
/// memory nor elsewhere in the machine.
pub proof fn lemma_halt_is_idempotent<T: Cell>(m: Machine)
    requires
        reaches_event::<T>(m),
        run_of::<T>(m).0 == Ok::<Event, Fault>(Event::Halted),
    ensures
        reaches_event::<T>(run_of::<T>(m).1),
        run_of::<T>(run_of::<T>(m).1) == (Ok::<Event, Fault>(Event::Halted), run_of::<T>(m).1),
{
    let n = choose|n: nat| stops_within::<T>(m, n);
    lemma_halted_run_ends_on_halt::<T>(m, n);
    let after = run_of::<T>(m).1;
    lemma_run_of_is_run_within::<T>(after, 0);
}

/// After a run that reported a halt, any number of further runs leaves the
/// machine as that first run left it.
pub proof fn lemma_halted_machine_stays<T: Cell>(m: Machine, k: nat)
    requires
        reaches_event::<T>(m),
        run_of::<T>(m).0 == Ok::<Event, Fault>(Event::Halted),
        k >= 1,
    ensures
        after_runs::<T>(m, k) == run_of::<T>(m).1,
    decreases k,
{
    let after = run_of::<T>(m).1;
    lemma_halt_is_idempotent::<T>(m);
    if k == 1 {
        assert(after_runs::<T>(after, 0) == after);
    } else {
        lemma_halted_machine_stays::<T>(after, (k - 1) as nat);
    }
}

/// A run that comes to additions, multiplications and halts only ends with a
/// halt or with a failure.
proof fn lemma_arithmetic_run_ends_in_halt<T: Cell>(m: Machine, n: nat)
    requires
        stops_within::<T>(m, n),
        only_arithmetic::<T>(m),
    ensures
        run_within::<T>(m, n).0 is Err || run_within::<T>(m, n).0 == Ok::<Event, Fault>(
            Event::Halted,
        ),
    decreases n,
{
    match step::<T>(m) {
        Step::Stop(_, _) => {},
        Step::Next(next) => {
            assert forall|i: nat| at_arithmetic_or_halt(
                #[trigger] after_steps::<T>(next, i),
            ) by {
                assert(after_steps::<T>(m, i + 1) == after_steps::<T>(next, i));
            }
            lemma_arithmetic_run_ends_in_halt::<T>(next, (n - 1) as nat);
        },
    }
}

/// A program of additions, multiplications and halts gives the same memory
/// however often it is run: its first run that does not fail reports a halt,
/// and the machine after `k` runs, for every `k` from 1 on, is the machine
/// after that first run.
pub proof fn lemma_arithmetic_program_is_run_once<T: Cell>(m: Machine, k: nat)
    requires
        reaches_event::<T>(m),
        only_arithmetic::<T>(m),
        run_of::<T>(m).0 is Ok,
        k >= 1,
    ensures
        run_of::<T>(m).0 == Ok::<Event, Fault>(Event::Halted),
        after_runs::<T>(m, k) == run_of::<T>(m).1,
        after_runs::<T>(m, k).cells == run_of::<T>(m).1.cells,
{
    let n = choose|n: nat| stops_within::<T>(m, n);
    lemma_arithmetic_run_ends_in_halt::<T>(m, n);
    lemma_halted_machine_stays::<T>(m, k);
}

} // verus!
