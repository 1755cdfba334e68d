//! Fuel for the modules of a spacecraft, by their mass.

use vstd::prelude::*;
use crate::number::{number_of, parse_u64, parsed_u64, NumberError};
use crate::text::{chars_of, lines, lines_of, texts_of};

verus! {

/// The fuel that a mass needs: a third of it, rounded down, less two, and no
/// less than nothing.
pub open spec fn fuel_load(weight: nat) -> nat {
    if weight / 3 >= 2 {
        (weight / 3 - 2) as nat
    } else {
        0
    }
}

/// A mass of fuel together with the fuel that it needs, the fuel that this
/// fuel needs, and so on until no more is needed.
pub open spec fn total_fuel_load_for_fuel(fuel_weight: nat) -> nat
    decreases fuel_weight,
{
    if fuel_weight == 0 {
        0
    } else {
        fuel_weight + total_fuel_load_for_fuel(fuel_load(fuel_weight))
    }
}

/// Fuel with all the fuel that it needs weighs less than twice as much.
pub proof fn lemma_total_fuel_is_bounded(fuel_weight: nat)
    ensures
        total_fuel_load_for_fuel(fuel_weight) <= 2 * fuel_weight,
    decreases fuel_weight,
{
    if fuel_weight != 0 {
        lemma_total_fuel_is_bounded(fuel_load(fuel_weight));
    }
}

/// The numbers on the lines of a text, each line by itself.
pub fn parse_into_nums(input: &str) -> (nums: Vec<Result<u64, NumberError>>)
    ensures
        nums@.len() == lines_of(input@).len(),
        forall|i: int|
            0 <= i < nums@.len() ==> parsed_u64(
                #[trigger] nums@[i],
                number_of(lines_of(input@)[i], 0, u64::MAX as int),
            ),
{
    let text = chars_of(input);
    let rows = lines(text.as_slice());
    let mut nums: Vec<Result<u64, NumberError>> = Vec::new();
    let mut i: usize = 0;
    while i < rows.len()
        invariant
            i <= rows@.len(),
            texts_of(rows@) == lines_of(input@),
            nums@.len() == i,
            forall|k: int|
                0 <= k < i ==> parsed_u64(
                    #[trigger] nums@[k],
                    number_of(lines_of(input@)[k], 0, u64::MAX as int),
                ),
        decreases rows@.len() - i,
    {
        nums.push(parse_u64(rows[i].as_slice()));
        i += 1;
    }
    nums
}

/// The fuel that a module of the given mass needs.
pub fn calculate_fuel_load(weight: u64) -> (fuel: u64)
    ensures
        fuel == fuel_load(weight as nat),
{
    match (weight / 3).checked_sub(2) {
        Some(fuel) => fuel,
        None => 0,
    }
}

/// The given mass of fuel together with all the fuel that fuel needs.
pub fn calculate_total_fuel_load_for_fuel(fuel_weight: u64) -> (total: u64)
    requires
        total_fuel_load_for_fuel(fuel_weight as nat) <= u64::MAX,
    ensures
        total == total_fuel_load_for_fuel(fuel_weight as nat),
{
    let mut fuel_weight = fuel_weight;
    let ghost whole = total_fuel_load_for_fuel(fuel_weight as nat);
    let mut sum = fuel_weight;
    loop
        invariant
            whole <= u64::MAX,
            sum + total_fuel_load_for_fuel(fuel_load(fuel_weight as nat)) == whole,
        ensures
            sum == whole,
        decreases fuel_weight,
    {
        if fuel_weight == 0 {
            break ;
        }
        fuel_weight = calculate_fuel_load(fuel_weight);
        sum += fuel_weight;
    }
    sum
}

/// The fuel for a module and for that fuel itself.
pub open spec fn fuel_with_its_fuel(weight: nat) -> nat {
    total_fuel_load_for_fuel(fuel_load(weight))
}

/// The fuel for one module: with the fuel for the fuel where `whole`.
pub open spec fn fuel_for(weight: nat, whole: bool) -> nat {
    if whole {
        fuel_with_its_fuel(weight)
    } else {
        fuel_load(weight)
    }
}

/// The fuel for the modules whose masses stand on the lines of a text. The
/// first line that is no number decides the error.
pub open spec fn total_over(rows: Seq<Seq<char>>, whole: bool) -> Result<nat, NumberError>
    decreases rows.len(),
{
    if rows.len() == 0 {
        Ok(0)
    } else {
        match total_over(rows.drop_last(), whole) {
            Err(error) => Err(error),
            Ok(before) => match number_of(rows.last(), 0, u64::MAX as int) {
                Err(error) => Err(error),
                Ok(v) => Ok(before + fuel_for(v as nat, whole)),
            },
        }
    }
}

/// Where the first lines fail, the whole text fails in the same way.
proof fn lemma_total_over_fails_on(rows: Seq<Seq<char>>, n: int, whole: bool)
    requires
        0 <= n <= rows.len(),
    ensures
        total_over(rows.take(n), whole) matches Err(error) ==> total_over(rows, whole) == Err::<
            nat,
            NumberError,
        >(error),
    decreases rows.len() - n,
{
    if n == rows.len() {
        assert(rows.take(n) =~= rows);
    } else {
        lemma_total_over_fails_on(rows.drop_last(), n, whole);
        assert(rows.drop_last().take(n) =~= rows.take(n));
    }
}

/// What a sum is, given what the text stands for.
pub open spec fn summed(r: Result<u64, NumberError>, expected: Result<nat, NumberError>) -> bool {
    match expected {
        Ok(total) => r == Ok::<u64, NumberError>(total as u64) && total <= u64::MAX,
        Err(error) => r == Err::<u64, NumberError>(error),
    }
}

/// The fuel for all modules together, one mass on each line of the text.
pub fn part1(input: &str) -> (r: Result<u64, NumberError>)
    requires
        total_over(lines_of(input@), false) matches Ok(total) ==> total <= u64::MAX,
    ensures
        summed(r, total_over(lines_of(input@), false)),
{
    let nums = parse_into_nums(input);
    let ghost rows = lines_of(input@);
    let mut sum: u128 = 0;
    let mut i: usize = 0;
    while i < nums.len()
        invariant
            i <= nums@.len(),
            rows == lines_of(input@),
            nums@.len() == rows.len(),
            forall|k: int|
                0 <= k < nums@.len() ==> parsed_u64(
                    #[trigger] nums@[k],
                    number_of(rows[k], 0, u64::MAX as int),
                ),
            total_over(rows.take(i as int), false) == Ok::<nat, NumberError>(sum as nat),
            sum <= i * u64::MAX,
        decreases nums@.len() - i,
    {
        assert(rows.take(i + 1).drop_last() =~= rows.take(i as int));
        proof {
            lemma_total_over_fails_on(rows, i + 1, false);
        }
        match nums[i] {
            Ok(weight) => {
                assert(i * u64::MAX + u64::MAX == (i + 1) * u64::MAX) by (nonlinear_arith);
                assert(i * u64::MAX <= usize::MAX * u64::MAX) by (nonlinear_arith)
                    requires
                        i <= usize::MAX,
                ;
                sum += calculate_fuel_load(weight) as u128;
            },
            Err(error) => {
                return Err(error);
            },
        }
        i += 1;
    }
    assert(rows.take(rows.len() as int) =~= rows);
    Ok(sum as u64)
}

/// The fuel for all modules together and for the fuel itself, one mass on
/// each line of the text.
pub fn part2(input: &str) -> (r: Result<u64, NumberError>)
    requires
        total_over(lines_of(input@), true) matches Ok(total) ==> total <= u64::MAX,
    ensures
        summed(r, total_over(lines_of(input@), true)),
{
    let nums = parse_into_nums(input);
    let ghost rows = lines_of(input@);
    let mut sum: u128 = 0;
    let mut i: usize = 0;
    while i < nums.len()
        invariant
            i <= nums@.len(),
            rows == lines_of(input@),
            nums@.len() == rows.len(),
            forall|k: int|
                0 <= k < nums@.len() ==> parsed_u64(
                    #[trigger] nums@[k],
                    number_of(rows[k], 0, u64::MAX as int),
                ),
            total_over(rows.take(i as int), true) == Ok::<nat, NumberError>(sum as nat),
            sum <= i * u64::MAX,
        decreases nums@.len() - i,
    {
        assert(rows.take(i + 1).drop_last() =~= rows.take(i as int));
        proof {
            lemma_total_over_fails_on(rows, i + 1, true);
        }
        match nums[i] {
            Ok(weight) => {
                assert(i * u64::MAX + u64::MAX == (i + 1) * u64::MAX) by (nonlinear_arith);
                assert(i * u64::MAX <= usize::MAX * u64::MAX) by (nonlinear_arith)
                    requires
                        i <= usize::MAX,
                ;
                let fuel = calculate_fuel_load(weight);
                proof {
                    lemma_total_fuel_is_bounded(fuel as nat);
                }
                sum += calculate_total_fuel_load_for_fuel(fuel) as u128;
            },
            Err(error) => {
                return Err(error);
            },
        }
        i += 1;
    }
    assert(rows.take(rows.len() as int) =~= rows);
    Ok(sum as u64)
}

} // verus!
