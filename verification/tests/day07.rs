use intcode_vm::day07::{parse, part1, part2, ring_thrust, strongest_signal, thrust};
use intcode_vm::number::NumberError;
use intcode_vm::session::SessionError;
use intcode_vm::VMResult;

#[test]
fn day07_part1_example1() {
    assert_eq!(
        part1(&parse("3,15,3,16,1002,16,10,16,1,16,15,15,4,15,99,0,0").unwrap()).unwrap(),
        43210
    );
}

#[test]
fn day07_part1_example2() {
    assert_eq!(
        part1(
            &parse("3,23,3,24,1002,24,10,24,1002,23,-1,23,101,5,23,23,1,24,23,23,4,23,99,0,0")
                .unwrap()
        )
        .unwrap(),
        54321
    );
}

#[test]
fn day07_part1_example3() {
    assert_eq!(
        part1(
            &parse("3,31,3,32,1002,32,10,32,1001,31,-2,31,1007,31,0,33,1002,33,7,33,1,33,31,31,1,32,31,31,4,31,99,0,0,0")
            .unwrap()
        )
        .unwrap(),
        65210
    );
}

#[test]
fn day07_part2_example1() {
    assert_eq!(
        part2(
            &parse("3,26,1001,26,-4,26,3,27,1002,27,2,27,1,27,26,27,4,27,1001,28,-1,28,1005,28,6,99,0,0,5")
            .unwrap()
        )
        .unwrap(),
        139629729
    );
}

#[test]
fn day07_part2_example2() {
    assert_eq!(
        part2(
            &parse("3,52,1001,52,-5,52,3,53,1,52,56,54,1007,54,5,55,1005,55,26,1001,54,-5,54,1105,1,12,1,53,54,53,1008,54,0,55,1001,55,1,55,2,53,55,53,4,53,1001,56,-1,56,1005,56,6,99,0,0,0,0,10")
            .unwrap()
        )
        .unwrap(),
        18216
    );
}

#[test]
fn day07_parse() {
    assert_eq!(parse("3,-15,+7"), Ok(vec![3, -15, 7]));
    assert_eq!(parse("3,,7"), Err(NumberError::Empty));
    assert_eq!(parse("3, 7"), Err(NumberError::InvalidDigit));
    assert_eq!(parse(""), Err(NumberError::Empty));
    assert_eq!(
        parse("9223372036854775808"),
        Err(NumberError::PosOverflow)
    );
    assert_eq!(
        parse("-9223372036854775809,x"),
        Err(NumberError::NegOverflow)
    );
}

#[test]
fn day07_thrust_of_one_setting() {
    let program = parse("3,15,3,16,1002,16,10,16,1,16,15,15,4,15,99,0,0").unwrap();
    assert_eq!(thrust(&program, &[4, 3, 2, 1, 0]).unwrap(), 43210);
    assert_eq!(thrust(&program, &[0, 1, 2, 3, 4]).unwrap(), 1234);
    assert_eq!(thrust(&program, &[]).unwrap(), 0);
    let ring = parse(
        "3,26,1001,26,-4,26,3,27,1002,27,2,27,1,27,26,27,4,27,1001,28,-1,28,1005,28,6,99,0,0,5",
    )
    .unwrap();
    assert_eq!(ring_thrust(&ring, &[9, 8, 7, 6, 5]).unwrap(), 139629729);
}

#[test]
fn day07_strongest_signal_over_given_settings() {
    let program = parse("3,15,3,16,1002,16,10,16,1,16,15,15,4,15,99,0,0").unwrap();
    let settings = vec![vec![0, 1, 2, 3, 4], vec![4, 3, 2, 1, 0], vec![1, 0, 2, 3, 4]];
    assert_eq!(strongest_signal(&program, &settings, false).unwrap(), 43210);
    assert_eq!(strongest_signal(&program, &[], false).unwrap(), i64::MIN);
}

#[test]
fn day07_unexpected_events_are_errors() {
    assert!(matches!(
        thrust(&[99], &[1]),
        Err(SessionError::Unexpected(VMResult::Halted))
    ));
    assert!(matches!(
        thrust(&[3, 0, 104, 7, 99], &[1]),
        Err(SessionError::Unexpected(VMResult::Output(7)))
    ));
    assert!(matches!(
        thrust(&[3, 0, 3, 0, 3, 0, 99], &[1]),
        Err(SessionError::Unexpected(VMResult::WaitingForInput))
    ));
    assert!(matches!(
        thrust(&[3, 0, 3, 0, 104, 7, 104, 8, 99], &[1]),
        Err(SessionError::Unexpected(VMResult::Output(8)))
    ));
    assert!(matches!(thrust(&[77], &[1]), Err(SessionError::Machine(_))));
    assert!(matches!(
        ring_thrust(&[104, 1, 99], &[5]),
        Err(SessionError::Unexpected(VMResult::Output(1)))
    ));
    assert!(matches!(
        ring_thrust(&[99], &[]),
        Err(SessionError::OutOfSteps)
    ));
    assert_eq!(ring_thrust(&[99], &[5, 6]).unwrap(), 0);
}
