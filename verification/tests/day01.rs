use intcode_vm::day01::{
    calculate_fuel_load, calculate_total_fuel_load_for_fuel, parse_into_nums, part1, part2,
};
use intcode_vm::number::NumberError;

#[test]
fn day01_part1_examples() {
    assert_eq!(part1("12").unwrap(), 2);
    assert_eq!(part1("14").unwrap(), 2);
    assert_eq!(part1("1969").unwrap(), 654);
    assert_eq!(part1("100756").unwrap(), 33583);
}

#[test]
fn day01_part2_examples() {
    assert_eq!(part2("14").unwrap(), 2);
    assert_eq!(part2("1969").unwrap(), 966);
    assert_eq!(part2("100756").unwrap(), 50346);
}

#[test]
fn day01_fuel_load_is_a_third_less_two() {
    assert_eq!(calculate_fuel_load(0), 0);
    assert_eq!(calculate_fuel_load(5), 0);
    assert_eq!(calculate_fuel_load(6), 0);
    assert_eq!(calculate_fuel_load(8), 0);
    assert_eq!(calculate_fuel_load(9), 1);
    assert_eq!(calculate_fuel_load(u64::MAX), u64::MAX / 3 - 2);
}

#[test]
fn day01_total_fuel_counts_the_fuel_for_the_fuel() {
    assert_eq!(calculate_total_fuel_load_for_fuel(0), 0);
    assert_eq!(calculate_total_fuel_load_for_fuel(2), 2);
    assert_eq!(calculate_total_fuel_load_for_fuel(654), 966);
}

#[test]
fn day01_sums_over_lines_and_stops_at_the_first_bad_line() {
    assert_eq!(part1("12\n14\r\n1969\n").unwrap(), 658);
    assert_eq!(part2("14\n1969").unwrap(), 968);
    assert_eq!(part1(""), Ok(0));
    assert_eq!(part1("12\n\n14"), Err(NumberError::Empty));
    assert_eq!(part1("12\nx\n99999999999999999999999"), Err(NumberError::InvalidDigit));
    assert_eq!(part2("-3"), Err(NumberError::InvalidDigit));
    assert_eq!(part2("18446744073709551616"), Err(NumberError::PosOverflow));
    assert_eq!(part1("+12"), Ok(2));
}

#[test]
fn day01_parse_into_nums_reads_each_line() {
    assert_eq!(
        parse_into_nums("1\nabc\n18446744073709551615\n+\n"),
        vec![
            Ok(1),
            Err(NumberError::InvalidDigit),
            Ok(u64::MAX),
            Err(NumberError::InvalidDigit)
        ]
    );
}
