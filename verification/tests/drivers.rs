use intcode_vm::error::VMError;
use intcode_vm::memory::Memory;
use intcode_vm::number::NumberError;
use intcode_vm::session::{ask, load, observe, read_memory, SessionError};
use intcode_vm::day11::{Direction, PanelColor};
use intcode_vm::day13::{decode_draw, DecodeDraw, Move, TileId, TilePosition, UnknownTile};
use intcode_vm::{day02, day05, day09, day11, day13};
use intcode_vm::{IntcodeVM, VMResult};

#[test]
fn day02_runs_with_noun_and_verb() {
    assert_eq!(
        day02::part1("1,9,10,3,2,3,11,0,99,30,40,50,0,0").unwrap(),
        100
    );
    assert_eq!(day02::part1("1,0,0,0,99,19690000,720").unwrap(), 2);
    assert_eq!(day02::part2("1,0,0,0,99,19690000,720").unwrap(), 506);
    let memory: Memory<i64> = "1,0,0,0,99,19690000,720".parse().unwrap();
    assert_eq!(day02::run_with(memory, 5, 6).unwrap(), 19690720);
}

#[test]
fn day02_grows_a_short_program() {
    assert!(matches!(
        day02::part1("1"),
        Err(SessionError::Machine(VMError::UnknownInstruction(0)))
    ));
    assert_eq!(day02::part1("99").unwrap(), 99);
}

#[test]
fn day02_errors() {
    assert!(matches!(
        day02::part1("1,x"),
        Err(SessionError::Parse(NumberError::InvalidDigit))
    ));
    assert!(matches!(
        day02::part1("1,0,0,0,\n"),
        Err(SessionError::Parse(NumberError::InvalidDigit))
    ));
    assert!(matches!(
        day02::part1("77,0,0,0"),
        Err(SessionError::Machine(VMError::UnknownInstruction(77)))
    ));
    assert!(matches!(
        day02::part2("1,0,0,0,99"),
        Err(SessionError::NoAnswer)
    ));
    assert!(matches!(
        day02::part2("1,0,0,3,77"),
        Err(SessionError::Machine(VMError::UnknownInstruction(77)))
    ));
}

#[test]
fn day05_part1_reads_the_last_diagnostic() {
    assert_eq!(day05::part1("3,0,4,0,99").unwrap(), 1);
    assert_eq!(day05::part1("3,0,104,0,104,0,104,77,99").unwrap(), 77);
    assert_eq!(day05::part1("99").unwrap(), 0);
    assert!(matches!(
        day05::part1("3,0,104,5,104,0,99"),
        Err(SessionError::Unexpected(VMResult::Output(0)))
    ));
    assert!(matches!(
        day05::part1("3,0,3,1,99"),
        Err(SessionError::Unexpected(VMResult::WaitingForInput))
    ));
    assert!(matches!(
        day05::part1("3,0,4"),
        Err(SessionError::Machine(VMError::UnknownInstruction(0)))
    ));
    assert!(matches!(
        day05::part1(""),
        Err(SessionError::Parse(NumberError::Empty))
    ));
}

#[test]
fn day05_part2_expects_one_output() {
    assert_eq!(day05::part2("3,0,4,0,99").unwrap(), 5);
    assert_eq!(
        day05::part2("3,9,8,9,10,9,4,9,99,-1,8").unwrap(),
        0
    );
    assert_eq!(
        day05::part2("3,3,1107,-1,8,3,4,3,99").unwrap(),
        1
    );
    assert!(matches!(
        day05::part2("99"),
        Err(SessionError::Unexpected(VMResult::Halted))
    ));
    assert!(matches!(
        day05::part2("3,0,3,0,99"),
        Err(SessionError::Unexpected(VMResult::WaitingForInput))
    ));
    assert!(matches!(
        day05::part2("104,1,104,2,99"),
        Err(SessionError::Unexpected(VMResult::Output(2)))
    ));
}

#[test]
fn day09_solves_with_the_number_of_the_part() {
    assert_eq!(
        day09::part1("1102,34915192,34915192,7,4,7,99,0").unwrap(),
        1219070632396864
    );
    assert_eq!(
        day09::part2("104,1125899906842624,99").unwrap(),
        1125899906842624
    );
    assert_eq!(day09::part1("3,0,4,0,99").unwrap(), 1);
    assert_eq!(day09::part2("3,0,4,0,99").unwrap(), 2);
    assert_eq!(day09::solve("109,7,203,0,204,0,99", -3).unwrap(), -3);
    assert!(matches!(
        day09::solve("109,1,204,-1,204,-1,99", 1),
        Err(SessionError::Unexpected(VMResult::Output(109)))
    ));
}

#[test]
fn session_helpers() {
    let mut vm = load(&[3, 0, 4, 0, 99]);
    assert_eq!(observe(&mut vm).unwrap(), VMResult::WaitingForInput);
    vm.set_next_input(7);
    assert_eq!(observe(&mut vm).unwrap(), VMResult::Output(7));
    assert_eq!(observe(&mut vm).unwrap(), VMResult::Halted);
    assert_eq!(ask(read_memory("3,0,4,0,99").unwrap(), 9).unwrap(), 9);
    assert!(matches!(
        read_memory("1,,2"),
        Err(SessionError::Parse(NumberError::Empty))
    ));
    let mut failing: IntcodeVM<i64> = load(&[1005, 1, -1]);
    assert!(matches!(
        observe(&mut failing),
        Err(SessionError::Machine(VMError::CannotCastToUsize(-1)))
    ));
}

const ROBOT: &str = "3,100,104,1,104,0,3,100,104,0,104,0,3,100,104,1,104,1,99";

#[test]
fn day11_robot_paints_and_turns() {
    assert_eq!(day11::part1(ROBOT).unwrap(), 3);
    assert_eq!(day11::part2(ROBOT).unwrap(), "\n #\n# \n");
    assert_eq!(day11::part1("99").unwrap(), 0);
    assert_eq!(day11::part2("99").unwrap(), "\n#\n");
    assert_eq!(day11::part1("3,100,99").unwrap(), 0);
    assert_eq!(day11::part1("3,100,104,0,99").unwrap(), 1);
}

#[test]
fn day11_robot_tells_the_colour_under_it() {
    // Paints white and turns left four times, and then reports what it is
    // told on its fifth panel, which is the first again.
    let program = "3,100,104,1,104,0,3,100,104,1,104,0,3,100,104,1,104,0,3,100,104,1,104,0,3,100,4,100,104,0,99";
    assert_eq!(day11::part1(program).unwrap(), 4);
    assert_eq!(day11::part2(program).unwrap(), "\n##\n##\n");
    let told = "3,100,4,100,104,0,3,100,4,100,104,0,99";
    assert_eq!(day11::part1(told).unwrap(), 2);
    assert_eq!(day11::part2(told).unwrap(), "\n #\n");
}

#[test]
fn day11_unexpected_events() {
    assert!(matches!(
        day11::part1("104,1,99"),
        Err(SessionError::Unexpected(VMResult::Output(1)))
    ));
    assert!(matches!(
        day11::part1("3,100,3,100,99"),
        Err(SessionError::Unexpected(VMResult::WaitingForInput))
    ));
    assert!(matches!(
        day11::part1("3,100,104,2,99"),
        Err(SessionError::Unexpected(VMResult::Output(2)))
    ));
    assert!(matches!(
        day11::part1("3,100,104,1,104,-1,99"),
        Err(SessionError::Unexpected(VMResult::Output(-1)))
    ));
    assert!(matches!(
        day11::part1("3,100,104,1,3,100,99"),
        Err(SessionError::Unexpected(VMResult::WaitingForInput))
    ));
    assert!(matches!(
        day11::part2("x"),
        Err(SessionError::Parse(NumberError::InvalidDigit))
    ));
}

#[test]
fn day11_colours_and_directions() {
    assert_eq!(PanelColor::Black.as_i64(), 0);
    assert_eq!(PanelColor::White.as_i64(), 1);
    assert_eq!(char::from(PanelColor::Black), ' ');
    assert_eq!(char::from(PanelColor::White), '#');
    assert_eq!(PanelColor::default(), PanelColor::Black);
    assert_eq!(Direction::default(), Direction::North);
    assert_eq!(Direction::North.turn_left(), Direction::West);
    assert_eq!(Direction::West.turn_left(), Direction::South);
    assert_eq!(Direction::South.turn_left(), Direction::East);
    assert_eq!(Direction::East.turn_left(), Direction::North);
    assert_eq!(Direction::North.turn_right(), Direction::East);
    assert_eq!(Direction::East.turn_right(), Direction::South);
    assert_eq!(Direction::South.turn_right(), Direction::West);
    assert_eq!(Direction::West.turn_right(), Direction::North);
    assert_eq!(Direction::North.translate_pos((3, -4)), (2, -4));
    assert_eq!(Direction::South.translate_pos((3, -4)), (4, -4));
    assert_eq!(Direction::East.translate_pos((3, -4)), (3, -3));
    assert_eq!(Direction::West.translate_pos((3, -4)), (3, -5));
}

const SCREEN: &str = "104,1,104,2,104,2,104,3,104,4,104,2,104,0,104,0,104,1,104,1,104,2,104,4,99";

#[test]
fn day13_counts_blocks() {
    assert_eq!(day13::part1(SCREEN).unwrap(), 1);
    assert_eq!(day13::part1("104,1,104,2,104,2,104,3,104,4,104,2,99").unwrap(), 2);
    assert_eq!(day13::part1("99").unwrap(), 0);
    assert_eq!(day13::part1("104,1,104,2,99").unwrap(), 0);
    assert!(matches!(
        day13::part1("104,-1,104,0,104,5,99"),
        Err(SessionError::Unexpected(VMResult::Output(5)))
    ));
    assert!(matches!(
        day13::part1("3,0,99"),
        Err(SessionError::Unexpected(VMResult::WaitingForInput))
    ));
    assert!(matches!(
        day13::part1("104,-2,104,0,104,1,99"),
        Err(SessionError::Unexpected(VMResult::Output(-2)))
    ));
    assert!(matches!(
        day13::part1("104,2,104,-1,104,1,99"),
        Err(SessionError::Unexpected(VMResult::Output(-1)))
    ));
    assert!(matches!(
        day13::part1("104,2,104,1,104,5,99"),
        Err(SessionError::Unexpected(VMResult::Output(5)))
    ));
}

#[test]
fn day13_plays_the_game() {
    assert_eq!(
        day13::part2("1,0,0,100,104,-1,104,0,104,42,3,101,104,-1,104,0,104,77,99").unwrap(),
        77
    );
    assert_eq!(
        day13::part2("1,0,0,100,104,5,104,1,104,4,104,2,104,3,104,3,3,101,104,-1,104,0,4,101,99")
            .unwrap(),
        1
    );
    assert_eq!(
        day13::part2("1,0,0,100,104,2,104,1,104,4,104,5,104,3,104,3,3,101,104,-1,104,0,4,101,99")
            .unwrap(),
        -1
    );
    assert_eq!(
        day13::part2("1,0,0,100,104,5,104,1,104,4,104,5,104,3,104,3,3,101,104,-1,104,0,4,101,99")
            .unwrap(),
        0
    );
    assert_eq!(day13::part2("1,0,0,100,4,0,99").unwrap(), 0);
    assert_eq!(day13::part2("1,4,4,100,99").unwrap(), 0);
}

#[test]
fn day13_decode_draw() {
    let mut vm = load(&[104, 1, 104, 2, 104, 4, 104, -1, 104, 0, 104, 9, 3, 0, 104, 1, 99]);
    assert_eq!(
        decode_draw(&mut vm).unwrap(),
        DecodeDraw::Success(TilePosition::new(1, 2), TileId::Ball)
    );
    assert_eq!(decode_draw(&mut vm).unwrap(), DecodeDraw::ScoreDisplay(9));
    assert_eq!(decode_draw(&mut vm).unwrap(), DecodeDraw::WaitingForInput);
    vm.set_next_input(0);
    assert_eq!(decode_draw(&mut vm).unwrap(), DecodeDraw::Halt);
    assert_eq!(decode_draw(&mut vm).unwrap(), DecodeDraw::Halt);
}

#[test]
fn day13_tiles_and_moves() {
    assert_eq!(Move::Left.as_str(), "move left");
    assert_eq!(Move::Right.as_str(), "move right");
    assert_eq!(Move::StayStill.as_str(), "not moving");
    assert_eq!(i64::from(Move::Left), -1);
    assert_eq!(i64::from(Move::StayStill), 0);
    assert_eq!(i64::from(Move::Right), 1);
    assert_eq!(TileId::try_from(0), Ok(TileId::Empty));
    assert_eq!(TileId::try_from(1), Ok(TileId::Wall));
    assert_eq!(TileId::try_from(2), Ok(TileId::Block));
    assert_eq!(TileId::try_from(3), Ok(TileId::HorizontalPaddle));
    assert_eq!(TileId::try_from(4), Ok(TileId::Ball));
    assert_eq!(TileId::try_from(5), Err(UnknownTile(5)));
    assert_eq!(TileId::try_from(-1), Err(UnknownTile(-1)));
    assert_eq!(char::from(TileId::Empty), ' ');
    assert_eq!(char::from(TileId::Wall), '#');
    assert_eq!(char::from(&TileId::Block), '⯀');
    assert_eq!(char::from(&TileId::HorizontalPaddle), '―');
    assert_eq!(char::from(TileId::Ball), 'O');
}
