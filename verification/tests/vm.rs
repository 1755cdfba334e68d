use intcode_vm::error::VMError;
use intcode_vm::instruction::{Argument, Instruction};
use intcode_vm::memory::Memory;
use intcode_vm::number::NumberError;
use intcode_vm::{IntcodeVM, VMResult};

#[test]
fn test_add() {
    let mut vm = IntcodeVM::from(vec![1, 0, 0, 0, 99]);
    assert_eq!(vm.run().unwrap(), VMResult::Halted);
    assert!(vm.into_memory().memory_starts_with(&[2, 0, 0, 0, 99]));
}

#[test]
fn test_mul1() {
    let mut vm = IntcodeVM::from(vec![2, 3, 0, 3, 99]);
    assert_eq!(vm.run().unwrap(), VMResult::Halted);
    assert!(vm.into_memory().memory_starts_with(&[2, 3, 0, 6, 99]));
}

#[test]
fn test_mul2() {
    let mut vm = IntcodeVM::from(vec![2, 4, 4, 5, 99, 0]);
    assert_eq!(vm.run().unwrap(), VMResult::Halted);
    assert!(vm.into_memory().memory_starts_with(&[2, 4, 4, 5, 99, 9801]));
}

#[test]
fn test_add_into_mul_dynamic() {
    let mut vm = IntcodeVM::from(vec![1, 1, 1, 4, 99, 5, 6, 0, 99]);
    assert_eq!(vm.run().unwrap(), VMResult::Halted);
    assert!(vm
        .into_memory()
        .memory_starts_with(&[30, 1, 1, 4, 2, 5, 6, 0, 99]));
}

#[test]
fn test_io() {
    let mut vm = IntcodeVM::from(vec![3, 0, 4, 0, 99]);
    assert_eq!(vm.run().unwrap(), VMResult::WaitingForInput);
    assert_eq!(vm.set_next_input(12345), None);
    assert_eq!(vm.run().unwrap(), VMResult::Output(12345));
    assert_eq!(vm.run().unwrap(), VMResult::Halted);
    assert!(vm.into_memory().memory_starts_with(&[12345, 0, 4, 0, 99]));
}

#[test]
fn test_io_immediate() {
    let mut vm = IntcodeVM::from(vec![3, 3, 104, 0, 99]);
    assert_eq!(vm.run().unwrap(), VMResult::WaitingForInput);
    assert_eq!(vm.set_next_input(12345), None);
    assert_eq!(vm.run().unwrap(), VMResult::Output(12345));
    assert_eq!(vm.get_next_input(), &None);
    assert_eq!(vm.run().unwrap(), VMResult::Halted);
    assert!(vm.into_memory().memory_starts_with(&[3, 3, 104, 12345, 99]));
}

#[test]
fn test_immediate_mul_into_halt() {
    let mut vm = IntcodeVM::from(vec![1002, 4, 3, 4, 33]);
    assert_eq!(vm.run().unwrap(), VMResult::Halted);
    assert!(vm.into_memory().memory_starts_with(&[1002, 4, 3, 4, 99]));
}

#[test]
fn test_negative_add() {
    let mut vm = IntcodeVM::from(vec![1101, 100, -1, 4, 0]);
    assert_eq!(vm.run().unwrap(), VMResult::Halted);
    assert!(vm.into_memory().memory_starts_with(&[1101, 100, -1, 4, 99]));
}

#[test]
fn test_copy_of_itself() {
    let prog = [
        109, 1, 204, -1, 1001, 100, 1, 100, 1008, 100, 16, 101, 1006, 101, 0, 99,
    ];
    let mut vm = IntcodeVM::from(prog.to_vec());
    for num in prog {
        assert_eq!(vm.run().unwrap(), VMResult::Output(num));
    }

    assert_eq!(vm.run().unwrap(), VMResult::Halted);
}

#[test]
fn test_16_digits_output() {
    let mut vm: IntcodeVM<i64> = vec![1102, 34915192, 34915192, 7, 4, 7, 99, 0].into();
    assert_eq!(vm.run().unwrap(), VMResult::Output(34915192 * 34915192));
    assert_eq!(vm.run().unwrap(), VMResult::Halted);

    let mut vm: IntcodeVM<i64> = vec![104, 1125899906842624, 99].into();
    assert_eq!(vm.run().unwrap(), VMResult::Output(1125899906842624));
    assert_eq!(vm.run().unwrap(), VMResult::Halted);
}

#[test]
fn memory_reads_zero_past_the_end_and_grows_on_write() {
    let mut memory: Memory<i64> = Memory::from(vec![1, 0, 0, 3, 99]);
    assert_eq!(memory.get(4), 99);
    assert_eq!(memory.get(10), 0);
    assert_eq!(memory.len(), 5);
    memory.set(7, 42);
    assert_eq!(memory.len(), 8);
    assert_eq!(
        memory.iter().copied().collect::<Vec<i64>>(),
        vec![1, 0, 0, 3, 99, 0, 0, 42]
    );
    memory.set(3, 2);
    assert!(memory.memory_starts_with(&[1, 0, 0, 2, 99, 0, 0, 42]));
}

#[test]
fn memory_starts_with_compares_stored_cells_only() {
    let memory: Memory<i32> = Memory::from(vec![1, 0, 0, 3, 99]);
    assert!(memory.memory_starts_with(&[1, 0, 0, 3, 99]));
    assert!(memory.memory_starts_with(&[1, 0, 0]));
    assert!(memory.memory_starts_with(&[]));
    assert!(!memory.memory_starts_with(&[1, 0, 0, 3, 99, 5]));
    assert!(!memory.memory_starts_with(&[1, 0, 0, 3, 99, 0]));
    assert!(!memory.memory_starts_with(&[1, 0, 0, 0, 99]));
}

#[test]
fn halting_is_idempotent() {
    let mut vm = IntcodeVM::from(vec![1, 0, 0, 0, 99]);
    assert_eq!(vm.run().unwrap(), VMResult::Halted);
    let after_first: Vec<i32> = vm.clone().into_memory().iter().copied().collect();
    for _ in 0..5 {
        assert_eq!(vm.run().unwrap(), VMResult::Halted);
    }
    let after_more: Vec<i32> = vm.into_memory().iter().copied().collect();
    assert_eq!(after_first, vec![2, 0, 0, 0, 99]);
    assert_eq!(after_more, after_first);
}

#[test]
fn arithmetic_program_gives_the_same_memory_run_once_or_stepwise() {
    let program: Vec<i64> = vec![1, 9, 10, 3, 2, 3, 11, 0, 99, 30, 40, 50];
    let mut once = IntcodeVM::from(program.clone());
    assert_eq!(once.run().unwrap(), VMResult::Halted);
    let mut stepped = IntcodeVM::from(program);
    assert_eq!(stepped.run_for(1), None);
    assert_eq!(stepped.run_for(1), None);
    assert!(matches!(stepped.run_for(1), Some(Ok(VMResult::Halted))));
    assert!(matches!(stepped.run_for(0), None));
    assert_eq!(stepped.run().unwrap(), VMResult::Halted);
    let expected = [3500, 9, 10, 70, 2, 3, 11, 0, 99, 30, 40, 50];
    assert!(once.into_memory().memory_starts_with(&expected));
    assert!(stepped.into_memory().memory_starts_with(&expected));
}

#[test]
fn run_for_stops_at_the_budget() {
    // Counts cell 7 down from 3 and halts.
    let mut vm: IntcodeVM<i64> = vec![1001, 8, -1, 8, 1005, 8, 0, 99, 3].into();
    assert_eq!(vm.run_for(5), None);
    assert_eq!(vm.clone().into_memory().get(8), 0);
    assert!(matches!(vm.run_for(1), None));
    assert!(matches!(vm.run_for(1), Some(Ok(VMResult::Halted))));
    let mut endless: IntcodeVM<i64> = vec![1105, 1, 0].into();
    assert_eq!(endless.run_for(100_000), None);
}

#[test]
fn set_next_input_hands_back_what_it_replaces() {
    let mut vm: IntcodeVM<i64> = vec![3, 0, 99].into();
    assert_eq!(vm.get_next_input(), &None);
    assert_eq!(vm.set_next_input(1), None);
    assert_eq!(vm.get_next_input(), &Some(1));
    assert_eq!(vm.set_next_input(2), Some(1));
    assert_eq!(vm.run().unwrap(), VMResult::Halted);
    assert_eq!(vm.get_next_input(), &None);
    assert_eq!(vm.into_memory().get(0), 2);
}

#[test]
fn waiting_for_input_is_tried_again() {
    let mut vm: IntcodeVM<i64> = vec![3, 0, 4, 0, 99].into();
    assert_eq!(vm.run().unwrap(), VMResult::WaitingForInput);
    assert_eq!(vm.run().unwrap(), VMResult::WaitingForInput);
    vm.set_next_input(-5);
    assert_eq!(vm.run().unwrap(), VMResult::Output(-5));
}

#[test]
fn clone_has_a_memory_of_its_own() {
    let mut vm: IntcodeVM<i64> = vec![1101, 1, 1, 0, 99].into();
    let untouched = vm.clone();
    assert_eq!(vm.run().unwrap(), VMResult::Halted);
    assert_eq!(vm.into_memory().get(0), 2);
    assert_eq!(untouched.into_memory().get(0), 1101);
    let memory: Memory<i64> = Memory::from(vec![1, 2]);
    let mut copy = memory.clone();
    copy.set(0, 9);
    assert_eq!(memory.get(0), 1);
    assert_eq!(copy.get(0), 9);
}

#[test]
fn comparisons_and_jumps() {
    fn answer(program: &str, input: i64) -> i64 {
        let mut vm: IntcodeVM<i64> = program.parse().unwrap();
        vm.set_next_input(input);
        match vm.run().unwrap() {
            VMResult::Output(value) => value,
            other => panic!("{:?}", other),
        }
    }
    assert_eq!(answer("3,9,8,9,10,9,4,9,99,-1,8", 8), 1);
    assert_eq!(answer("3,9,8,9,10,9,4,9,99,-1,8", 7), 0);
    assert_eq!(answer("3,9,7,9,10,9,4,9,99,-1,8", 7), 1);
    assert_eq!(answer("3,9,7,9,10,9,4,9,99,-1,8", 8), 0);
    assert_eq!(answer("3,3,1108,-1,8,3,4,3,99", 8), 1);
    assert_eq!(answer("3,3,1107,-1,8,3,4,3,99", 9), 0);
    assert_eq!(answer("3,12,6,12,15,1,13,14,13,4,13,99,-1,0,1,9", 0), 0);
    assert_eq!(answer("3,12,6,12,15,1,13,14,13,4,13,99,-1,0,1,9", 5), 1);
    assert_eq!(answer("3,3,1105,-1,9,1101,0,0,12,4,12,99,1", 0), 0);
    assert_eq!(answer("3,3,1105,-1,9,1101,0,0,12,4,12,99,1", -2), 1);
    let larger = "3,21,1008,21,8,20,1005,20,22,107,8,21,20,1006,20,31,1106,0,36,98,0,0,1002,21,125,20,4,20,1105,1,46,104,999,1105,1,46,1101,1000,1,20,4,20,1105,1,46,98,99";
    assert_eq!(answer(larger, 7), 999);
    assert_eq!(answer(larger, 8), 1000);
    assert_eq!(answer(larger, 9), 1001);
}

#[test]
fn relative_base_reads_and_writes() {
    let mut vm: IntcodeVM<i64> = vec![109, 10, 203, 5, 204, 5, 22201, 5, 5, 6, 204, 6, 99].into();
    vm.set_next_input(21);
    assert_eq!(vm.run().unwrap(), VMResult::Output(21));
    assert_eq!(vm.run().unwrap(), VMResult::Output(42));
    assert_eq!(vm.run().unwrap(), VMResult::Halted);
    let memory = vm.into_memory();
    assert_eq!(memory.len(), 17);
    assert_eq!(memory.get(15), 21);
    assert_eq!(memory.get(16), 42);
    let mut down: IntcodeVM<i64> = vec![109, 5, 109, -3, 204, 0, 99].into();
    assert_eq!(down.run().unwrap(), VMResult::Output(109));
}

#[test]
fn program_may_rewrite_what_it_has_not_reached() {
    let mut vm: IntcodeVM<i64> = vec![1101, 50, 49, 4, 0].into();
    assert_eq!(vm.run().unwrap(), VMResult::Halted);
    assert!(vm.into_memory().memory_starts_with(&[1101, 50, 49, 4, 99]));
}

#[test]
fn reads_past_the_end_do_not_grow_the_memory() {
    let mut vm: IntcodeVM<i64> = vec![4, 1000, 99].into();
    assert_eq!(vm.run().unwrap(), VMResult::Output(0));
    assert_eq!(vm.into_memory().len(), 3);
    let mut falls_off: IntcodeVM<i64> = vec![1101, 1, 1, 0].into();
    assert!(matches!(
        falls_off.run(),
        Err(VMError::UnknownInstruction(0))
    ));
}

#[test]
fn every_error_has_its_input() {
    let run = |cells: Vec<i64>| IntcodeVM::from(cells).run();
    assert!(matches!(run(vec![15]), Err(VMError::UnknownInstruction(15))));
    assert!(matches!(run(vec![1100]), Err(VMError::UnknownInstruction(1100))));
    assert!(matches!(run(vec![0]), Err(VMError::UnknownInstruction(0))));
    assert!(matches!(run(vec![-1]), Err(VMError::CannotCastToU16(-1))));
    assert!(matches!(run(vec![65536]), Err(VMError::CannotCastToU16(65536))));
    assert!(matches!(run(vec![65535]), Err(VMError::UnknownInstruction(65535))));
    assert!(matches!(
        run(vec![1, -4, 0, 0, 99]),
        Err(VMError::CannotCastToUsize(-4))
    ));
    assert!(matches!(
        run(vec![109, -9, 204, 2, 99]),
        Err(VMError::CannotCastToUsize(-7))
    ));
    assert!(matches!(
        run(vec![1105, 1, -2]),
        Err(VMError::CannotCastToUsize(-2))
    ));
    assert_eq!(run(vec![1105, 0, -2, 99]).unwrap(), VMResult::Halted);
    assert_eq!(run(vec![1106, 1, -2, 99]).unwrap(), VMResult::Halted);
    assert!(matches!(
        run(vec![301, 0, 0, 0, 99]),
        Err(VMError::InvalidArgMode {
            opcode: 1,
            arg_num: 0,
            arg_mode: 3
        })
    ));
    assert!(matches!(
        run(vec![9002, 0, 0, 0, 99]),
        Err(VMError::InvalidArgMode {
            opcode: 2,
            arg_num: 1,
            arg_mode: 9
        })
    ));
    assert!(matches!(
        run(vec![40008, 0, 0, 0, 99]),
        Err(VMError::InvalidArgMode {
            opcode: 8,
            arg_num: 2,
            arg_mode: 4
        })
    ));
    assert!(matches!(
        run(vec![10001, 0, 0, 0, 99]),
        Err(VMError::ArgModeCannotBeImmediate {
            opcode: 1,
            arg_num: 2
        })
    ));
    assert!(matches!(
        run(vec![103, 0, 99]),
        Err(VMError::ArgModeCannotBeImmediate {
            opcode: 3,
            arg_num: 0
        })
    ));
    assert!(matches!(
        run(vec![10007, 0, 0, 0, 99]),
        Err(VMError::ArgModeCannotBeImmediate {
            opcode: 7,
            arg_num: 2
        })
    ));
    assert!(matches!(
        run(vec![31101, -1, 0, 0, 99]),
        Err(VMError::InvalidArgMode {
            opcode: 1,
            arg_num: 2,
            arg_mode: 3
        })
    ));
    assert!(matches!(
        run(vec![501, -1, -1, 0, 99]),
        Err(VMError::InvalidArgMode {
            opcode: 1,
            arg_num: 0,
            arg_mode: 5
        })
    ));
    assert!(matches!(
        run(vec![1, -1, -2, 0, 99]),
        Err(VMError::CannotCastToUsize(-1))
    ));
    assert_eq!(run(vec![10099]).unwrap(), VMResult::Halted);
    assert_eq!(run(vec![1104, 6, 99]).unwrap(), VMResult::Output(6));
}

#[test]
fn a_failed_instruction_changes_nothing() {
    let mut vm: IntcodeVM<i64> = vec![1101, 1, 1, 7, 10001, 0, 0, 0, 99].into();
    assert!(vm.run().is_err());
    let memory = vm.clone().into_memory();
    assert!(memory.memory_starts_with(&[1101, 1, 1, 7, 10001, 0, 0, 2]));
    assert_eq!(memory.len(), 9);
    assert!(vm.run().is_err());
}

#[test]
fn arithmetic_wraps_at_the_width_of_the_cell() {
    let mut narrow: IntcodeVM<i32> = vec![1102, 65536, 65536, 0, 1101, 2147483647, 1, 1, 99].into();
    assert_eq!(narrow.run().unwrap(), VMResult::Halted);
    assert!(narrow.into_memory().memory_starts_with(&[0, i32::MIN]));
    let mut wide: IntcodeVM<i64> = vec![1102, 65536, 65536, 0, 1101, 2147483647, 1, 1, 99].into();
    assert_eq!(wide.run().unwrap(), VMResult::Halted);
    assert!(wide
        .into_memory()
        .memory_starts_with(&[4294967296, 2147483648]));
    let mut edge: IntcodeVM<i64> =
        vec![1101, i64::MAX, 1, 0, 1102, i64::MIN, -1, 1, 1102, 3037000500, 3037000500, 2, 99]
            .into();
    assert_eq!(edge.run().unwrap(), VMResult::Halted);
    assert!(edge
        .into_memory()
        .memory_starts_with(&[i64::MIN, i64::MIN, -9223372036709301616]));
}

#[test]
fn memory_and_machine_are_read_from_text() {
    let memory: Memory<i32> = "1,0,0,3,99".parse().unwrap();
    assert!(memory.memory_starts_with(&[1, 0, 0, 3, 99]));
    assert_eq!(memory.len(), 5);
    let signs: Memory<i64> = Memory::parse("-7,+8,0012").unwrap();
    assert_eq!(signs.iter().copied().collect::<Vec<i64>>(), vec![-7, 8, 12]);
    assert_eq!("1, 2".parse::<Memory<i64>>().unwrap_err(), NumberError::InvalidDigit);
    assert_eq!("1,2\n".parse::<Memory<i64>>().unwrap_err(), NumberError::InvalidDigit);
    assert_eq!("".parse::<Memory<i64>>().unwrap_err(), NumberError::Empty);
    assert_eq!("1,,2".parse::<Memory<i64>>().unwrap_err(), NumberError::Empty);
    assert_eq!("1,-".parse::<Memory<i64>>().unwrap_err(), NumberError::InvalidDigit);
    assert_eq!(
        "2147483648".parse::<Memory<i32>>().unwrap_err(),
        NumberError::PosOverflow
    );
    assert_eq!(
        "-2147483649,x".parse::<Memory<i32>>().unwrap_err(),
        NumberError::NegOverflow
    );
    assert!("-2147483648,2147483647".parse::<Memory<i32>>().is_ok());
    assert_eq!(
        "9223372036854775808".parse::<IntcodeVM<i64>>().unwrap_err(),
        NumberError::PosOverflow
    );
    let mut vm: IntcodeVM<i32> = "1,0,0,3,99".parse().unwrap();
    assert_eq!(vm.run().unwrap(), VMResult::Halted);
    assert!(vm.into_memory().memory_starts_with(&[1, 0, 0, 2, 99]));
    let from_memory = IntcodeVM::from(Memory::from(vec![99i64]));
    assert_eq!(from_memory.into_memory().len(), 1);
}

#[test]
fn instructions_are_decoded_with_their_width() {
    let width = |cells: Vec<i64>| {
        Instruction::from_current_instr_ptr(&IntcodeVM::from(cells))
            .unwrap()
            .instruction_width()
    };
    assert_eq!(width(vec![1, 0, 0, 0]), 4);
    assert_eq!(width(vec![2, 0, 0, 0]), 4);
    assert_eq!(width(vec![3, 0]), 2);
    assert_eq!(width(vec![4, 0]), 2);
    assert_eq!(width(vec![5, 0, 0]), 3);
    assert_eq!(width(vec![6, 0, 0]), 3);
    assert_eq!(width(vec![7, 0, 0, 0]), 4);
    assert_eq!(width(vec![8, 0, 0, 0]), 4);
    assert_eq!(width(vec![9, 0]), 2);
    assert_eq!(width(vec![99]), 1);
    let decoded =
        Instruction::from_current_instr_ptr(&IntcodeVM::from(vec![21001i64, 5, -3, 4])).unwrap();
    assert!(matches!(
        decoded,
        Instruction::Add(Argument::Address(5), Argument::Immediate(-3), 4)
    ));
}
