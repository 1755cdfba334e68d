use intcode_vm::day04::{
    is_valid_num_part1, is_valid_num_part2, parse_as_range, parse_p1_brute, parse_p2_brute,
    part1_brute, part2_brute, RangeError,
};
use intcode_vm::number::NumberError;

#[test]
fn test_part1_num_validity() {
    assert!(is_valid_num_part1(111111));
    assert!(!is_valid_num_part1(223450));
    assert!(!is_valid_num_part1(123789));
}

#[test]
fn test_part2_num_validity() {
    assert!(is_valid_num_part2(112233));
    assert!(!is_valid_num_part2(123444));
    assert!(is_valid_num_part2(111122));
    assert!(!is_valid_num_part2(223450));
    assert!(!is_valid_num_part2(122234));
    assert!(is_valid_num_part2(112333));
}

#[test]
fn day04_more_validity() {
    assert!(is_valid_num_part1(122345));
    assert!(is_valid_num_part1(123455));
    assert!(is_valid_num_part1(112));
    assert!(!is_valid_num_part1(123456));
    assert!(!is_valid_num_part1(111110));
    assert!(is_valid_num_part2(123455));
    assert!(is_valid_num_part2(112345));
    assert!(!is_valid_num_part2(111111));
    assert!(!is_valid_num_part2(111234));
    assert!(!is_valid_num_part2(123456));
    assert!(is_valid_num_part2(5123455));
}

#[test]
fn day04_parse_as_range() {
    assert_eq!(parse_as_range("171309-643603"), Ok(171309..=643603));
    assert_eq!(parse_p1_brute("5-4"), Ok(5..=4));
    assert_eq!(parse_p2_brute("0-4294967295"), Ok(0..=u32::MAX));
    assert_eq!(parse_as_range("171309"), Err(RangeError::NoDash));
    assert_eq!(
        parse_as_range("17a-5"),
        Err(RangeError::BadNumber(NumberError::InvalidDigit))
    );
    assert_eq!(
        parse_as_range("-5"),
        Err(RangeError::BadNumber(NumberError::Empty))
    );
    assert_eq!(
        parse_as_range("1-4294967296"),
        Err(RangeError::BadNumber(NumberError::PosOverflow))
    );
    assert_eq!(
        parse_as_range("1-2-3"),
        Err(RangeError::BadNumber(NumberError::InvalidDigit))
    );
    assert_eq!(
        parse_as_range("x-y"),
        Err(RangeError::BadNumber(NumberError::InvalidDigit))
    );
}

#[test]
fn day04_counts() {
    assert_eq!(part1_brute(&(111111..=111111)), 1);
    assert_eq!(part1_brute(&(111110..=111123)), 11);
    assert_eq!(part2_brute(&(111110..=111123)), 1);
    assert_eq!(part1_brute(&(5..=4)), 0);
    assert_eq!(part1_brute(&(171309..=643603)), 1625);
    assert_eq!(part2_brute(&(171309..=643603)), 1111);
    let mut used = 111111..=111111;
    assert_eq!(used.next(), Some(111111));
    assert_eq!(used.next(), None);
    assert_eq!(part1_brute(&used), 0);
    assert_eq!(part2_brute(&used), 0);
}
