//! Decimal numbers in text.

use vstd::prelude::*;

verus! {

/// Why a text is no number of the wanted type.
#[derive(Debug, Clone, Copy, PartialEq, Eq, Structural)]
pub enum NumberError {
    /// The text is empty.
    Empty,
    /// A character is no decimal digit, or the text is a sign alone.
    InvalidDigit,
    /// The number is too large for the type.
    PosOverflow,
    /// The number is too small for the type.
    NegOverflow,
}

/// The value of a decimal digit.
pub open spec fn digit_of(c: char) -> Option<int> {
    if '0' <= c <= '9' {
        Some(c as int - '0' as int)
    } else {
        None
    }
}

/// The number that a run of digits stands for, below zero where `negative`,
/// read from left to right: the first character that is no digit, or the
/// first digit that takes the number out of `min..=max`, decides the error.
pub open spec fn digits_value(s: Seq<char>, negative: bool, min: int, max: int) -> Result<
    int,
    NumberError,
>
    decreases s.len(),
{
    if s.len() == 0 {
        Ok(0)
    } else {
        match digits_value(s.drop_last(), negative, min, max) {
            Err(error) => Err(error),
            Ok(before) => match digit_of(s.last()) {
                None => Err(NumberError::InvalidDigit),
                Some(digit) => {
                    let value = if negative {
                        before * 10 - digit
                    } else {
                        before * 10 + digit
                    };
                    if value > max {
                        Err(NumberError::PosOverflow)
                    } else if value < min {
                        Err(NumberError::NegOverflow)
                    } else {
                        Ok(value)
                    }
                },
            },
        }
    }
}

/// The number in `min..=max` that a text stands for: digits, after one `+`
/// or, for a type with numbers below zero, one `-`.
pub open spec fn number_of(s: Seq<char>, min: int, max: int) -> Result<int, NumberError> {
    if s.len() == 0 {
        Err(NumberError::Empty)
    } else if s.len() == 1 && (s[0] == '+' || s[0] == '-') {
        Err(NumberError::InvalidDigit)
    } else if s[0] == '+' {
        digits_value(s.drop_first(), false, min, max)
    } else if s[0] == '-' && min < 0 {
        digits_value(s.drop_first(), true, min, max)
    } else {
        digits_value(s, false, min, max)
    }
}

/// What a parsing result is, given what the text stands for.
pub open spec fn parsed_as(r: Result<i128, NumberError>, expected: Result<int, NumberError>) -> bool {
    match expected {
        Ok(v) => r == Ok::<i128, NumberError>(v as i128) && v == v as i128,
        Err(error) => r == Err::<i128, NumberError>(error),
    }
}

/// Reads the digits of `text` from `start` on.
fn parse_digits(text: &[char], start: usize, negative: bool, min: i128, max: i128) -> (r: Result<
    i128,
    NumberError,
>)
    requires
        start <= text@.len(),
        -0x1_0000_0000_0000_0000 <= min <= 0 <= max <= 0x1_0000_0000_0000_0000,
    ensures
        parsed_as(
            r,
            digits_value(
                text@.subrange(start as int, text@.len() as int),
                negative,
                min as int,
                max as int,
            ),
        ),
{
    let mut value: i128 = 0;
    let mut i: usize = start;
    while i < text.len()
        invariant
            start <= i <= text@.len(),
            -0x1_0000_0000_0000_0000 <= min <= 0 <= max <= 0x1_0000_0000_0000_0000,
            min <= value <= max,
            digits_value(text@.subrange(start as int, i as int), negative, min as int, max as int)
                == Ok::<int, NumberError>(value as int),
        decreases text@.len() - i,
    {
        let c = text[i];
        let ghost through = text@.subrange(start as int, i + 1);
        assert(through.drop_last() =~= text@.subrange(start as int, i as int));
        proof {
            lemma_digits_value_fails_on(
                text@.subrange(start as int, text@.len() as int),
                i + 1 - start,
                negative,
                min as int,
                max as int,
            );
            assert(text@.subrange(start as int, text@.len() as int).subrange(0, i + 1 - start)
                =~= through);
        }
        if !('0' <= c && c <= '9') {
            return Err(NumberError::InvalidDigit);
        }
        let digit: i128 = (c as u32 - '0' as u32) as i128;
        let next: i128 = if negative {
            value * 10 - digit
        } else {
            value * 10 + digit
        };
        if next > max {
            return Err(NumberError::PosOverflow);
        }
        if next < min {
            return Err(NumberError::NegOverflow);
        }
        value = next;
        i += 1;
    }
    Ok(value)
}

/// Where a prefix of the digits fails, the whole fails in the same way.
proof fn lemma_digits_value_fails_on(s: Seq<char>, n: int, negative: bool, min: int, max: int)
    requires
        0 <= n <= s.len(),
    ensures
        digits_value(s.subrange(0, n), negative, min, max) matches Err(error) ==> digits_value(
            s,
            negative,
            min,
            max,
        ) == Err::<int, NumberError>(error),
    decreases s.len() - n,
{
    if n == s.len() {
        assert(s.subrange(0, n) =~= s);
    } else {
        lemma_digits_value_fails_on(s.drop_last(), n, negative, min, max);
        assert(s.drop_last().subrange(0, n) =~= s.subrange(0, n));
    }
}

/// Reads `text` as a decimal number in `min..=max`.
pub fn parse_integer(text: &[char], min: i128, max: i128) -> (r: Result<i128, NumberError>)
    requires
        -0x1_0000_0000_0000_0000 <= min <= 0 <= max <= 0x1_0000_0000_0000_0000,
    ensures
        parsed_as(r, number_of(text@, min as int, max as int)),
        r matches Ok(v) ==> min <= v <= max,
{
    if text.len() == 0 {
        return Err(NumberError::Empty);
    }
    let first = text[0];
    if text.len() == 1 && (first == '+' || first == '-') {
        return Err(NumberError::InvalidDigit);
    }
    assert(text@.subrange(0, text@.len() as int) =~= text@);
    if first == '+' {
        parse_digits(text, 1, false, min, max)
    } else if first == '-' && min < 0 {
        parse_digits(text, 1, true, min, max)
    } else {
        parse_digits(text, 0, false, min, max)
    }
}

/// The numbers that a list of texts stands for, read from left to right: the
/// first text that is no number decides the error.
pub open spec fn numbers_of(fields: Seq<Seq<char>>, min: int, max: int) -> Result<
    Seq<int>,
    NumberError,
>
    decreases fields.len(),
{
    if fields.len() == 0 {
        Ok(Seq::<int>::empty())
    } else {
        match numbers_of(fields.drop_last(), min, max) {
            Err(error) => Err(error),
            Ok(before) => match number_of(fields.last(), min, max) {
                Err(error) => Err(error),
                Ok(v) => Ok(before.push(v)),
            },
        }
    }
}

/// Where the first texts of a list fail, the whole list fails in the same
/// way.
pub proof fn lemma_numbers_of_fails_on(fields: Seq<Seq<char>>, n: int, min: int, max: int)
    requires
        0 <= n <= fields.len(),
    ensures
        numbers_of(fields.take(n), min, max) matches Err(error) ==> numbers_of(fields, min, max)
            == Err::<Seq<int>, NumberError>(error),
    decreases fields.len() - n,
{
    if n == fields.len() {
        assert(fields.take(n) =~= fields);
    } else {
        lemma_numbers_of_fails_on(fields.drop_last(), n, min, max);
        assert(fields.drop_last().take(n) =~= fields.take(n));
    }
}

/// What a typed parsing result is, given what the text stands for.
pub open spec fn parsed_i64(r: Result<i64, NumberError>, expected: Result<int, NumberError>) -> bool {
    match expected {
        Ok(v) => r == Ok::<i64, NumberError>(v as i64) && v == v as i64,
        Err(error) => r == Err::<i64, NumberError>(error),
    }
}

/// Reads `text` as an `i64`.
pub fn parse_i64(text: &[char]) -> (r: Result<i64, NumberError>)
    ensures
        parsed_i64(r, number_of(text@, i64::MIN as int, i64::MAX as int)),
{
    match parse_integer(text, i64::MIN as i128, i64::MAX as i128) {
        Ok(v) => Ok(v as i64),
        Err(error) => Err(error),
    }
}

/// What a typed parsing result is, given what the text stands for.
pub open spec fn parsed_u64(r: Result<u64, NumberError>, expected: Result<int, NumberError>) -> bool {
    match expected {
        Ok(v) => r == Ok::<u64, NumberError>(v as u64) && v == v as u64,
        Err(error) => r == Err::<u64, NumberError>(error),
    }
}

/// Reads `text` as a `u64`.
pub fn parse_u64(text: &[char]) -> (r: Result<u64, NumberError>)
    ensures
        parsed_u64(r, number_of(text@, 0, u64::MAX as int)),
{
    match parse_integer(text, 0, u64::MAX as i128) {
        Ok(v) => Ok(v as u64),
        Err(error) => Err(error),
    }
}

/// Reads every text of a list as an `i64`.
pub fn parse_all_i64(fields: &Vec<Vec<char>>) -> (r: Result<Vec<i64>, NumberError>)
    ensures
        match numbers_of(crate::text::texts_of(fields@), i64::MIN as int, i64::MAX as int) {
            Ok(values) => r matches Ok(numbers) && crate::memory::values_of(numbers@) == values,
            Err(error) => r matches Err(e) && e == error,
        },
{
    let mut numbers: Vec<i64> = Vec::new();
    let mut i: usize = 0;
    let ghost texts = crate::text::texts_of(fields@);
    assert(crate::memory::values_of(numbers@) =~= Seq::<int>::empty());
    while i < fields.len()
        invariant
            i <= fields@.len(),
            texts == crate::text::texts_of(fields@),
            numbers_of(texts.take(i as int), i64::MIN as int, i64::MAX as int) == Ok::<
                Seq<int>,
                NumberError,
            >(crate::memory::values_of(numbers@)),
        decreases fields@.len() - i,
    {
        let ghost before = crate::memory::values_of(numbers@);
        assert(texts.take(i + 1).drop_last() =~= texts.take(i as int));
        proof {
            lemma_numbers_of_fails_on(texts, i + 1, i64::MIN as int, i64::MAX as int);
        }
        match parse_i64(fields[i].as_slice()) {
            Ok(v) => {
                numbers.push(v);
                assert(crate::memory::values_of(numbers@) =~= before.push(v as int));
            },
            Err(error) => {
                return Err(error);
            },
        }
        i += 1;
    }
    assert(texts.take(texts.len() as int) =~= texts);
    Ok(numbers)
}

} // verus!
