//! Amplifiers in a row: every amplifier runs the same program with a phase of
//! its own, and hands its output to the next. The order of the phases that
//! gives the strongest signal is wanted.

use vstd::prelude::*;
use itertools::Itertools;
use crate::machine::{Event, Machine};
use crate::number::{numbers_of, NumberError};
use crate::session::{
    load, loaded, next_event, observe, outcome, program_of, supplied, Failure, SessionError,
};
use crate::text::{chars_of, split, split_on};
use crate::vm::{IntcodeVM, VMResult};

verus! {

/// The orders in which `k` of the numbers from `first` to `last` can be
/// taken, each number at most once, in the order in which
/// `Itertools::permutations` hands them out.
pub uninterp spec fn permutations_of(first: i64, last: i64, k: nat) -> Seq<Seq<i64>>;

/// The sequences that a list of vectors holds.
pub open spec fn settings_of(settings: Seq<Vec<i64>>) -> Seq<Seq<i64>> {
    Seq::new(settings.len(), |i: int| settings[i]@)
}

/// `Itertools::permutations` on the range from `first` to `last`, collected:
/// the orders in which `k` of those numbers can be taken, one after the
/// other.
#[verifier::external_body]
fn permutations(first: i64, last: i64, k: usize) -> (orders: Vec<Vec<i64>>)
    ensures
        settings_of(orders@) == permutations_of(first, last, k as nat),
{
    (first..=last).permutations(k).collect()
}

/// Reads a program: decimal numbers with commas between them.
pub fn parse(input: &str) -> (r: Result<Vec<i64>, NumberError>)
    ensures
        match numbers_of(split_on(input@, ','), i64::MIN as int, i64::MAX as int) {
            Ok(values) => r matches Ok(program) && program_of(program@) == values,
            Err(error) => r matches Err(e) && e == error,
        },
{
    let text = chars_of(input);
    let fields = split(text.as_slice(), ',');
    crate::number::parse_all_i64(&fields)
}

/// What one amplifier makes of a signal: its program is started with the
/// phase, must then ask for the signal, must answer it with one output, and
/// must then halt. The output is the new signal.
pub open spec fn amplified(program: Seq<int>, phase: int, signal: int) -> Result<int, Failure> {
    match next_event(supplied(loaded(program), phase)) {
        Err(failure) => Err(failure),
        Ok((Event::WaitingForInput, asking)) => match next_event(supplied(asking, signal)) {
            Err(failure) => Err(failure),
            Ok((Event::Output(produced), answered)) => match next_event(answered) {
                Err(failure) => Err(failure),
                Ok((Event::Halted, _)) => Ok(produced),
                Ok((other, _)) => Err(Failure::Unexpected(other)),
            },
            Ok((other, _)) => Err(Failure::Unexpected(other)),
        },
        Ok((other, _)) => Err(Failure::Unexpected(other)),
    }
}

/// What a row of amplifiers with the given phases makes of the signal 0.
pub open spec fn thrust_of(program: Seq<int>, phases: Seq<i64>) -> Result<int, Failure>
    decreases phases.len(),
{
    if phases.len() == 0 {
        Ok(0)
    } else {
        match thrust_of(program, phases.drop_last()) {
            Err(failure) => Err(failure),
            Ok(signal) => amplified(program, phases.last() as int, signal),
        }
    }
}

/// The strongest of the signals that the settings give, and no less than the
/// least `i64`. The first setting that fails decides the failure.
pub open spec fn strongest(
    program: Seq<int>,
    settings: Seq<Seq<i64>>,
    feedback: bool,
) -> Result<int, Failure>
    decreases settings.len(),
{
    if settings.len() == 0 {
        Ok(i64::MIN as int)
    } else {
        match strongest(program, settings.drop_last(), feedback) {
            Err(failure) => Err(failure),
            Ok(best) => match signal_of(program, settings.last(), feedback) {
                Err(failure) => Err(failure),
                Ok(signal) => Ok(
                    if signal > best {
                        signal
                    } else {
                        best
                    },
                ),
            },
        }
    }
}

/// The signal that one setting gives: from a row of amplifiers, or from a
/// ring of them where `feedback`.
pub open spec fn signal_of(program: Seq<int>, phases: Seq<i64>, feedback: bool) -> Result<
    int,
    Failure,
> {
    if feedback {
        ring_thrust_of(program, phases)
    } else {
        thrust_of(program, phases)
    }
}

/// Where the first phases of a row fail, the whole row fails in the same
/// way.
proof fn lemma_thrust_of_fails_on(program: Seq<int>, phases: Seq<i64>, n: int)
    requires
        0 <= n <= phases.len(),
    ensures
        thrust_of(program, phases.take(n)) matches Err(failure) ==> thrust_of(program, phases)
            == Err::<int, Failure>(failure),
    decreases phases.len() - n,
{
    if n == phases.len() {
        assert(phases.take(n) =~= phases);
    } else {
        lemma_thrust_of_fails_on(program, phases.drop_last(), n);
        assert(phases.drop_last().take(n) =~= phases.take(n));
    }
}

/// Where the first settings fail, all of them fail in the same way.
proof fn lemma_strongest_fails_on(
    program: Seq<int>,
    settings: Seq<Seq<i64>>,
    n: int,
    feedback: bool,
)
    requires
        0 <= n <= settings.len(),
    ensures
        strongest(program, settings.take(n), feedback) matches Err(failure) ==> strongest(
            program,
            settings,
            feedback,
        ) == Err::<int, Failure>(failure),
    decreases settings.len() - n,
{
    if n == settings.len() {
        assert(settings.take(n) =~= settings);
    } else {
        lemma_strongest_fails_on(program, settings.drop_last(), n, feedback);
        assert(settings.drop_last().take(n) =~= settings.take(n));
    }
}

/// Runs one amplifier on a signal.
fn amplify(program: &[i64], phase: i64, signal: i64) -> (r: Result<i64, SessionError>)
    ensures
        outcome(r) == amplified(program_of(program@), phase as int, signal as int),
{
    let mut vm = load(program);
    vm.set_next_input(phase);

    match observe(&mut vm)? {
        VMResult::WaitingForInput => (),
        other => {
            return Err(SessionError::Unexpected(other));
        },
    }

    vm.set_next_input(signal);
    let produced = match observe(&mut vm)? {
        VMResult::Output(produced) => produced,
        other => {
            return Err(SessionError::Unexpected(other));
        },
    };

    match observe(&mut vm)? {
        VMResult::Halted => Ok(produced),
        other => Err(SessionError::Unexpected(other)),
    }
}

/// Runs a row of amplifiers with the given phases on the signal 0.
pub fn thrust(program: &[i64], phases: &[i64]) -> (r: Result<i64, SessionError>)
    ensures
        outcome(r) == thrust_of(program_of(program@), phases@),
{
    let mut current_trust: i64 = 0;
    let mut i: usize = 0;
    while i < phases.len()
        invariant
            i <= phases@.len(),
            thrust_of(program_of(program@), phases@.take(i as int)) == Ok::<int, Failure>(
                current_trust as int,
            ),
        decreases phases@.len() - i,
    {
        assert(phases@.take(i + 1).drop_last() =~= phases@.take(i as int));
        proof {
            lemma_thrust_of_fails_on(program_of(program@), phases@, i + 1);
        }
        current_trust = amplify(program, phases[i], current_trust)?;
        i += 1;
    }
    assert(phases@.take(phases@.len() as int) =~= phases@);
    Ok(current_trust)
}

/// The strongest signal that the given settings give, each setting being
/// the phases of a row of amplifiers, or of a ring where `feedback`.
pub fn strongest_signal(program: &[i64], settings: &[Vec<i64>], feedback: bool) -> (r: Result<
    i64,
    SessionError,
>)
    ensures
        outcome(r) == strongest(program_of(program@), settings_of(settings@), feedback),
{
    let mut best: i64 = i64::MIN;
    let mut i: usize = 0;
    let ghost all = settings_of(settings@);
    while i < settings.len()
        invariant
            i <= settings@.len(),
            all == settings_of(settings@),
            strongest(program_of(program@), all.take(i as int), feedback) == Ok::<int, Failure>(
                best as int,
            ),
        decreases settings@.len() - i,
    {
        assert(all.take(i + 1).drop_last() =~= all.take(i as int));
        proof {
            lemma_strongest_fails_on(program_of(program@), all, i + 1, feedback);
        }
        let signal = if feedback {
            ring_thrust(program, settings[i].as_slice())?
        } else {
            thrust(program, settings[i].as_slice())?
        };
        if signal > best {
            best = signal;
        }
        i += 1;
    }
    assert(all.take(all.len() as int) =~= all);
    Ok(best)
}

/// The strongest signal that a row of five amplifiers can give, over all
/// orders of the phases 0 to 4.
pub fn part1(program: &[i64]) -> (r: Result<i64, SessionError>)
    ensures
        outcome(r) == strongest(program_of(program@), permutations_of(0, 4, 5), false),
{
    let settings = permutations(0, 4, 5);
    strongest_signal(program, settings.as_slice(), false)
}

/// The most rounds that a ring of amplifiers is driven for.
pub const ROUND_LIMIT: u64 = u64::MAX;

/// The amplifiers of a ring before their first round: each is started with
/// its phase.
pub open spec fn ring_of(program: Seq<int>, phases: Seq<i64>) -> Seq<Machine> {
    Seq::new(phases.len(), |i: int| supplied(loaded(program), phases[i] as int))
}

/// What one amplifier of a ring makes of a signal when its turn comes: it
/// must ask for the signal and answer it with one output, which is the new
/// signal. Where it has halted instead, there is no new signal.
pub open spec fn turn_of(m: Machine, signal: int) -> Result<(Machine, Option<int>), Failure> {
    match next_event(m) {
        Err(failure) => Err(failure),
        Ok((Event::Halted, halted)) => Ok((halted, None)),
        Ok((Event::Output(value), _)) => Err(Failure::Unexpected(Event::Output(value))),
        Ok((Event::WaitingForInput, asking)) => match next_event(supplied(asking, signal)) {
            Err(failure) => Err(failure),
            Ok((Event::Output(produced), answered)) => Ok((answered, Some(produced))),
            Ok((other, _)) => Err(Failure::Unexpected(other)),
        },
    }
}

/// What amplifier `at` and those after it make of a signal in one round.
/// Where one has halted when its turn comes, the round ends, and with it the
/// ring: the signal is then final, which the `bool` says.
pub open spec fn round_from(ring: Seq<Machine>, at: int, signal: int) -> Result<
    (Seq<Machine>, int, bool),
    Failure,
>
    decreases ring.len() - at,
{
    if at < 0 || at >= ring.len() {
        Ok((ring, signal, false))
    } else {
        match turn_of(ring[at], signal) {
            Err(failure) => Err(failure),
            Ok((halted, None)) => Ok((ring.update(at, halted), signal, true)),
            Ok((answered, Some(produced))) => round_from(
                ring.update(at, answered),
                at + 1,
                produced,
            ),
        }
    }
}

/// Gives one amplifier of a ring its turn.
fn take_turn(vm: &mut IntcodeVM<i64>, signal: i64) -> (r: Result<Option<i64>, SessionError>)
    ensures
        match turn_of(old(vm)@, signal as int) {
            Ok((after, produced)) => r matches Ok(reported) && final(vm)@ == after && produced
                == match reported {
                Some(value) => Some(value as int),
                None => None,
            },
            Err(failure) => r matches Err(error) && error@ == failure,
        },
{
    match observe(vm)? {
        VMResult::WaitingForInput => (),
        VMResult::Halted => {
            return Ok(None);
        },
        VMResult::Output(v) => {
            return Err(SessionError::Unexpected(VMResult::Output(v)));
        },
    }

    vm.set_next_input(signal);
    match observe(vm)? {
        VMResult::Output(out) => Ok(Some(out)),
        other => Err(SessionError::Unexpected(other)),
    }
}

/// What a ring makes of a signal in at most `rounds` rounds: the signal goes
/// round until an amplifier has halted when its turn comes.
pub open spec fn ring_signal(ring: Seq<Machine>, signal: int, rounds: nat) -> Result<int, Failure>
    decreases rounds,
{
    if rounds == 0 {
        Err(Failure::OutOfSteps)
    } else {
        match round_from(ring, 0, signal) {
            Err(failure) => Err(failure),
            Ok((_, last, true)) => Ok(last),
            Ok((after, last, false)) => ring_signal(after, last, (rounds - 1) as nat),
        }
    }
}

/// What a ring of amplifiers with the given phases makes of the signal 0,
/// for a ring with at least one amplifier.
pub open spec fn ring_thrust_of(program: Seq<int>, phases: Seq<i64>) -> Result<int, Failure> {
    if phases.len() == 0 {
        Err(Failure::OutOfSteps)
    } else {
        ring_signal(ring_of(program, phases), 0, ROUND_LIMIT as nat)
    }
}

/// The states of the machines of a ring.
pub open spec fn states_of(vms: Seq<IntcodeVM<i64>>) -> Seq<Machine> {
    Seq::new(vms.len(), |i: int| vms[i]@)
}

/// Runs a ring of amplifiers with the given phases on the signal 0: the
/// output of the last amplifier goes to the first again, until an amplifier
/// has halted when its turn comes. A ring without amplifiers never halts,
/// and is given up at once.
pub fn ring_thrust(program: &[i64], phases: &[i64]) -> (r: Result<i64, SessionError>)
    ensures
        outcome(r) == ring_thrust_of(program_of(program@), phases@),
{
    if phases.len() == 0 {
        return Err(SessionError::OutOfSteps);
    }
    let mut vms: Vec<IntcodeVM<i64>> = Vec::new();
    let mut i: usize = 0;
    while i < phases.len()
        invariant
            i <= phases@.len(),
            vms@.len() == i,
            forall|k: int|
                0 <= k < i ==> (#[trigger] vms@[k])@ == supplied(
                    loaded(program_of(program@)),
                    phases@[k] as int,
                ),
        decreases phases@.len() - i,
    {
        let mut vm = load(program);
        vm.set_next_input(phases[i]);
        vms.push(vm);
        i += 1;
    }
    assert(states_of(vms@) =~= ring_of(program_of(program@), phases@));

    let mut current_thrust: i64 = 0;
    let mut rounds: u64 = ROUND_LIMIT;
    let ghost whole = ring_thrust_of(program_of(program@), phases@);
    while rounds > 0
        invariant
            vms@.len() == phases@.len(),
            vms@.len() > 0,
            ring_signal(states_of(vms@), current_thrust as int, rounds as nat) == whole,
            whole == ring_thrust_of(program_of(program@), phases@),
        decreases rounds,
    {
        let ghost ring = states_of(vms@);
        let ghost signal = current_thrust as int;
        let mut at: usize = 0;
        let mut halted = false;
        while at < vms.len()
            invariant_except_break
                !halted,
                round_from(states_of(vms@), at as int, current_thrust as int) == round_from(
                    ring,
                    0,
                    signal,
                ),
            invariant
                at <= vms@.len(),
                vms@.len() == ring.len(),
                vms@.len() > 0,
                rounds > 0,
                ring_signal(ring, signal, rounds as nat) == whole,
                whole == ring_thrust_of(program_of(program@), phases@),
            ensures
                vms@.len() == ring.len(),
                halted ==> (round_from(ring, 0, signal) matches Ok((_, last, true)) && last
                    == current_thrust),
                !halted ==> round_from(ring, 0, signal) == Ok::<(Seq<Machine>, int, bool), Failure>(
                    (states_of(vms@), current_thrust as int, false),
                ),
            decreases vms@.len() - at,
        {
            let ghost before = states_of(vms@);
            match take_turn(&mut vms[at], current_thrust) {
                Err(error) => {
                    return Err(error);
                },
                Ok(None) => {
                    halted = true;
                    break ;
                },
                Ok(Some(out)) => {
                    current_thrust = out;
                },
            }
            assert(states_of(vms@) =~= before.update(at as int, vms@[at as int]@));
            at += 1;
        }
        if halted {
            return Ok(current_thrust);
        }
        rounds -= 1;
    }
    Err(SessionError::OutOfSteps)
}

/// The strongest signal that a ring of five amplifiers can give, over all
/// orders of the phases 5 to 9.
pub fn part2(program: &[i64]) -> (r: Result<i64, SessionError>)
    ensures
        outcome(r) == strongest(program_of(program@), permutations_of(5, 9, 5), true),
{
    let settings = permutations(5, 9, 5);
    strongest_signal(program, settings.as_slice(), true)
}

} // verus!
