//! Six-digit passwords: which numbers of a range have digits that never
//! decrease and that hold a pair of equal neighbours.

use vstd::prelude::*;
use core::ops::RangeInclusive;
use crate::number::{number_of, parse_integer, NumberError};
use crate::text::{chars_of, first_index_of, split_once};

verus! {

/// `n` without its last `k` decimal digits.
pub open spec fn without_low_digits(n: int, k: int) -> int
    decreases k,
{
    if k <= 0 {
        n
    } else {
        without_low_digits(n, k - 1) / 10
    }
}

/// The decimal digit of `n` at place `k`, counted from the right and from 0.
pub open spec fn digit_at(n: int, k: int) -> int {
    without_low_digits(n, k) % 10
}

/// Whether the low six digits, read from left to right, never decrease.
pub open spec fn never_decreases(n: int) -> bool {
    forall|k: int| 0 <= k < 5 ==> digit_at(n, k + 1) <= #[trigger] digit_at(n, k)
}

/// Whether two neighbours among the low six digits are equal.
pub open spec fn has_equal_neighbours(n: int) -> bool {
    exists|k: int| 0 <= k < 5 && digit_at(n, k + 1) == #[trigger] digit_at(n, k)
}

/// Whether the digits at places `k` and `k + 1` are equal and no neighbour
/// of the two, among the low six digits, equals them.
pub open spec fn is_exact_pair(n: int, k: int) -> bool {
    &&& 0 <= k < 5
    &&& digit_at(n, k + 1) == digit_at(n, k)
    &&& (k == 0 || digit_at(n, k - 1) != digit_at(n, k))
    &&& (k == 4 || digit_at(n, k + 2) != digit_at(n, k))
}

/// Whether the low six digits hold a pair of equal neighbours that is not
/// part of a longer run of equal digits.
pub open spec fn has_exact_pair(n: int) -> bool {
    exists|k: int| #[trigger] is_exact_pair(n, k)
}

/// Whether the low six digits of `num` never decrease from left to right
/// and hold two equal neighbours.
pub fn is_valid_num_part1(num: u32) -> (valid: bool)
    ensures
        valid == (never_decreases(num as int) && has_equal_neighbours(num as int)),
{
    let ghost n = num as int;
    let mut last: u32 = num % 10;
    let mut rest: u32 = num / 10;
    assert(without_low_digits(n, 1) == without_low_digits(n, 0) / 10);
    let mut has_repeat = false;
    let mut place: u32 = 0;
    while place < 5
        invariant
            place <= 5,
            n == num as int,
            rest == without_low_digits(n, place + 1),
            last == digit_at(n, place as int),
            forall|k: int| 0 <= k < place ==> digit_at(n, k + 1) <= #[trigger] digit_at(n, k),
            has_repeat == exists|k: int|
                0 <= k < place && digit_at(n, k + 1) == #[trigger] digit_at(n, k),
        decreases 5 - place,
    {
        let digit = rest % 10;
        rest /= 10;
        if digit == last {
            has_repeat = true;
        } else if digit > last {
            return false;
        }
        last = digit;
        place += 1;
    }
    has_repeat
}

/// Whether the low six digits of `num` never decrease from left to right
/// and hold two equal neighbours that are not part of a longer run.
pub fn is_valid_num_part2(num: u32) -> (valid: bool)
    ensures
        valid == (never_decreases(num as int) && has_exact_pair(num as int)),
{
    let ghost n = num as int;
    let mut last: u32 = num % 10;
    let mut rest: u32 = num / 10;
    assert(without_low_digits(n, 1) == without_low_digits(n, 0) / 10);
    let mut has_repeat = false;
    let mut repeat_count: u32 = 0;
    let mut place: u32 = 0;
    while place < 5
        invariant
            place <= 5,
            n == num as int,
            rest == without_low_digits(n, place + 1),
            last == digit_at(n, place as int),
            forall|k: int| 0 <= k < place ==> digit_at(n, k + 1) <= #[trigger] digit_at(n, k),
            repeat_count <= place,
            forall|k: int|
                place - repeat_count <= k <= place ==> #[trigger] digit_at(n, k) == last,
            repeat_count < place ==> digit_at(n, place - repeat_count - 1) != last,
            has_repeat == exists|k: int|
                #[trigger] is_exact_pair(n, k) && k + 1 < place - repeat_count,
        decreases 5 - place,
    {
        let digit = rest % 10;
        rest /= 10;
        if digit == last {
            repeat_count += 1;
        } else {
            if repeat_count == 1 {
                assert(is_exact_pair(n, place - 1));
                has_repeat = true;
            }
            repeat_count = 0;
            if digit > last {
                    return false;
            }
        }
        last = digit;
        place += 1;
    }
    proof {
        if repeat_count == 1 {
            assert(is_exact_pair(n, 4));
        }
    }
    has_repeat || repeat_count == 1
}

/// Why a text describes no range of numbers.
#[derive(Debug, Clone, Copy, PartialEq, Eq)]
pub enum RangeError {
    /// The text holds no `-`.
    NoDash,
    /// What stands before the first `-`, or after it, is no `u32`.
    BadNumber(NumberError),
}

/// The bounds that a text stands for: a first number, a `-`, and a last
/// number. The first number is read first.
pub open spec fn bounds_of(input: Seq<char>) -> Result<(int, int), RangeError> {
    if !input.contains('-') {
        Err(RangeError::NoDash)
    } else {
        let dash = first_index_of(input, '-');
        match number_of(input.subrange(0, dash), 0, u32::MAX as int) {
            Err(error) => Err(RangeError::BadNumber(error)),
            Ok(first) => match number_of(
                input.subrange(dash + 1, input.len() as int),
                0,
                u32::MAX as int,
            ) {
                Err(error) => Err(RangeError::BadNumber(error)),
                Ok(last) => Ok((first, last)),
            },
        }
    }
}

/// What reading a range gives, given what the text stands for.
pub open spec fn parsed_range(
    r: Result<RangeInclusive<u32>, RangeError>,
    expected: Result<(int, int), RangeError>,
) -> bool {
    match expected {
        Ok((first, last)) => r matches Ok(range) && range@.start == first && range@.end == last
            && !range@.exhausted,
        Err(error) => r matches Err(e) && e == error,
    }
}

/// Reads the range of the first part of the puzzle.
pub fn parse_p1_brute(input: &str) -> (r: Result<RangeInclusive<u32>, RangeError>)
    ensures
        parsed_range(r, bounds_of(input@)),
{
    parse_as_range(input)
}

/// Reads the range of the second part of the puzzle.
pub fn parse_p2_brute(input: &str) -> (r: Result<RangeInclusive<u32>, RangeError>)
    ensures
        parsed_range(r, bounds_of(input@)),
{
    parse_as_range(input)
}

/// Reads a range of numbers, such as `171309-643603`: both bounds belong to
/// it.
pub fn parse_as_range(input: &str) -> (r: Result<RangeInclusive<u32>, RangeError>)
    ensures
        parsed_range(r, bounds_of(input@)),
{
    let text = chars_of(input);
    let (left, right) = match split_once(text.as_slice(), '-') {
        Some(parts) => parts,
        None => {
            return Err(RangeError::NoDash);
        },
    };
    let first = match parse_integer(left.as_slice(), 0, u32::MAX as i128) {
        Ok(v) => v as u32,
        Err(error) => {
            return Err(RangeError::BadNumber(error));
        },
    };
    let last = match parse_integer(right.as_slice(), 0, u32::MAX as i128) {
        Ok(v) => v as u32,
        Err(error) => {
            return Err(RangeError::BadNumber(error));
        },
    };
    Ok(RangeInclusive::new(first, last))
}

/// `RangeInclusive::start`: the lower bound that the range was made with.
#[verifier::external_body]
fn range_start(range: &RangeInclusive<u32>) -> (start: u32)
    ensures
        start == range@.start,
{
    *range.start()
}

/// `RangeInclusive::end`: the upper bound that the range was made with.
#[verifier::external_body]
fn range_end(range: &RangeInclusive<u32>) -> (end: u32)
    ensures
        end == range@.end,
{
    *range.end()
}

/// `RangeInclusive::is_empty`: whether the range holds no number, because
/// its bounds are in the wrong order or because an iteration has used it up.
#[verifier::external_body]
fn range_is_empty(range: &RangeInclusive<u32>) -> (empty: bool)
    ensures
        empty == (range@.exhausted || range@.start > range@.end),
{
    range.is_empty()
}

/// How many numbers from `first` to `last` meet the rules of the first part.
pub open spec fn count_part1(first: int, last: int) -> int
    decreases last - first + 1,
{
    if last < first {
        0
    } else {
        count_part1(first, last - 1) + if never_decreases(last) && has_equal_neighbours(last) {
            1int
        } else {
            0int
        }
    }
}

/// How many numbers from `first` to `last` meet the rules of the second
/// part.
pub open spec fn count_part2(first: int, last: int) -> int
    decreases last - first + 1,
{
    if last < first {
        0
    } else {
        count_part2(first, last - 1) + if never_decreases(last) && has_exact_pair(last) {
            1int
        } else {
            0int
        }
    }
}

/// The numbers that a range holds: none where it is used up.
pub open spec fn held_by(range: RangeInclusive<u32>) -> (int, int) {
    if range@.exhausted {
        (1, 0)
    } else {
        (range@.start as int, range@.end as int)
    }
}

/// How many numbers of the range meet the rules of the first part.
pub fn part1_brute(range: &RangeInclusive<u32>) -> (count: usize)
    requires
        count_part1(held_by(*range).0, held_by(*range).1) <= usize::MAX,
    ensures
        count == count_part1(held_by(*range).0, held_by(*range).1),
{
    if range_is_empty(range) {
        return 0;
    }
    let first = range_start(range);
    let last = range_end(range);
    let mut count: usize = 0;
    let mut num: u32 = first;
    loop
        invariant_except_break
            count == count_part1(first as int, num - 1),
        invariant
            first <= num <= last,
            count_part1(first as int, last as int) <= usize::MAX,
        ensures
            count == count_part1(first as int, last as int),
        decreases last - num,
    {
        proof {
            lemma_count_part1_grows(first as int, num as int, last as int);
        }
        if is_valid_num_part1(num) {
            count += 1;
        }
        if num == last {
            break ;
        }
        num += 1;
    }
    count
}

/// How many numbers of the range meet the rules of the second part.
pub fn part2_brute(range: &RangeInclusive<u32>) -> (count: usize)
    requires
        count_part2(held_by(*range).0, held_by(*range).1) <= usize::MAX,
    ensures
        count == count_part2(held_by(*range).0, held_by(*range).1),
{
    if range_is_empty(range) {
        return 0;
    }
    let first = range_start(range);
    let last = range_end(range);
    let mut count: usize = 0;
    let mut num: u32 = first;
    loop
        invariant_except_break
            count == count_part2(first as int, num - 1),
        invariant
            first <= num <= last,
            count_part2(first as int, last as int) <= usize::MAX,
        ensures
            count == count_part2(first as int, last as int),
        decreases last - num,
    {
        proof {
            lemma_count_part2_grows(first as int, num as int, last as int);
        }
        if is_valid_num_part2(num) {
            count += 1;
        }
        if num == last {
            break ;
        }
        num += 1;
    }
    count
}

/// A longer range holds at least as many numbers that meet the rules.
proof fn lemma_count_part1_grows(first: int, middle: int, last: int)
    requires
        middle <= last,
    ensures
        0 <= count_part1(first, middle) <= count_part1(first, last),
    decreases last - first + 1,
{
    if first <= last && middle < last {
        lemma_count_part1_grows(first, middle, last - 1);
    } else if first <= last {
        lemma_count_part1_grows(first, middle - 1, last - 1);
    }
}

/// A longer range holds at least as many numbers that meet the rules.
proof fn lemma_count_part2_grows(first: int, middle: int, last: int)
    requires
        middle <= last,
    ensures
        0 <= count_part2(first, middle) <= count_part2(first, last),
    decreases last - first + 1,
{
    if first <= last && middle < last {
        lemma_count_part2_grows(first, middle, last - 1);
    } else if first <= last {
        lemma_count_part2_grows(first, middle - 1, last - 1);
    }
}

} // verus!
