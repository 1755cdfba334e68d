//! The hull painting robot: a program is told the colour of the panel under
//! the robot, and answers with the colour to paint and the way to turn.

use vstd::prelude::*;
use fnv::FnvHashMap;
use crate::hashing::{map_get, map_insert, map_keys, map_len};
use itertools::Itertools;
use crate::machine::{Event, Machine};
use crate::session::{
    loaded, next_event, observe, program_in, read_memory, supplied, Failure, SessionError,
};
use crate::text::push_char;
use crate::vm::{IntcodeVM, VMResult};

verus! {

/// The colour of a panel. A panel that was never painted is black.
#[derive(Debug, Clone, Copy, PartialEq, Eq, Hash, Default, Structural)]
pub enum PanelColor {
    #[default]
    Black,
    White,
}

impl From<PanelColor> for char {
    /// The character that shows a panel of this colour.
    fn from(value: PanelColor) -> (c: Self) {
        match value {
            PanelColor::Black => ' ',
            PanelColor::White => '#',
        }
    }
}

impl vstd::std_specs::convert::FromSpecImpl<PanelColor> for char {
    open spec fn obeys_from_spec() -> bool {
        true
    }

    open spec fn from_spec(value: PanelColor) -> Self {
        match value {
            PanelColor::Black => ' ',
            PanelColor::White => '#',
        }
    }
}

impl PanelColor {
    /// The number that tells the program this colour.
    pub open spec fn spec_as_i64(&self) -> i64 {
        match self {
            Self::Black => 0,
            Self::White => 1,
        }
    }

    /// The number that tells the program this colour: 0 for black, 1 for
    /// white.
    pub fn as_i64(&self) -> (n: i64)
        ensures
            n == self.spec_as_i64(),
    {
        match self {
            Self::Black => 0,
            Self::White => 1,
        }
    }
}

/// A place on the hull: a row, counted downwards, and a column.
pub type Position = (i64, i64);

/// The way the robot faces.
#[derive(Debug, Clone, Copy, PartialEq, Eq, Hash, Default, Structural)]
pub enum Direction {
    #[default]
    North,
    South,
    East,
    West,
}

impl Direction {
    /// The direction after a quarter turn to the left.
    pub open spec fn spec_turn_left(&self) -> Self {
        match self {
            Self::North => Self::West,
            Self::West => Self::South,
            Self::South => Self::East,
            Self::East => Self::North,
        }
    }

    /// The direction after a quarter turn to the right.
    pub open spec fn spec_turn_right(&self) -> Self {
        match self {
            Self::North => Self::East,
            Self::West => Self::North,
            Self::South => Self::West,
            Self::East => Self::South,
        }
    }

    /// The place one step from `pos` in this direction. North leads to the
    /// row above, east to the column to the right.
    pub open spec fn spec_translate_pos(&self, pos: (int, int)) -> (int, int) {
        match self {
            Self::North => (pos.0 - 1, pos.1),
            Self::South => (pos.0 + 1, pos.1),
            Self::East => (pos.0, pos.1 + 1),
            Self::West => (pos.0, pos.1 - 1),
        }
    }

    /// The direction after a quarter turn to the left.
    pub fn turn_left(&self) -> (turned: Self)
        ensures
            turned == self.spec_turn_left(),
    {
        match self {
            Self::North => Self::West,
            Self::West => Self::South,
            Self::South => Self::East,
            Self::East => Self::North,
        }
    }

    /// The direction after a quarter turn to the right.
    pub fn turn_right(&self) -> (turned: Self)
        ensures
            turned == self.spec_turn_right(),
    {
        match self {
            Self::North => Self::East,
            Self::West => Self::North,
            Self::South => Self::West,
            Self::East => Self::South,
        }
    }

    /// The place one step from `pos` in this direction.
    pub fn translate_pos(&self, pos: Position) -> (moved: Position)
        requires
            i64::MIN <= self.spec_translate_pos((pos.0 as int, pos.1 as int)).0 <= i64::MAX,
            i64::MIN <= self.spec_translate_pos((pos.0 as int, pos.1 as int)).1 <= i64::MAX,
        ensures
            (moved.0 as int, moved.1 as int) == self.spec_translate_pos(
                (pos.0 as int, pos.1 as int),
            ),
    {
        match self {
            Self::North => (pos.0 - 1, pos.1),
            Self::South => (pos.0 + 1, pos.1),
            Self::East => (pos.0, pos.1 + 1),
            Self::West => (pos.0, pos.1 - 1),
        }
    }
}

/// Four quarter turns to one side lead back, and a turn to the left undoes a
/// turn to the right.
pub proof fn lemma_turns(d: Direction)
    ensures
        d.spec_turn_left().spec_turn_right() == d,
        d.spec_turn_right().spec_turn_left() == d,
        d.spec_turn_left().spec_turn_left().spec_turn_left().spec_turn_left() == d,
        d.spec_turn_right().spec_turn_right().spec_turn_right().spec_turn_right() == d,
{
}

/// The most panels that the robot is let to paint.
pub const ROUND_LIMIT: u64 = 0x7fff_ffff_ffff_ffff;

/// `Itertools::minmax` on numbers, as an option: the least and the greatest
/// of them, and `None` where there are none.
#[verifier::external_body]
fn minmax(values: &Vec<i64>) -> (bounds: Option<(i64, i64)>)
    ensures
        bounds is None <==> values@.len() == 0,
        bounds matches Some((least, greatest)) ==> values@.contains(least) && values@.contains(
            greatest,
        ) && forall|i: int| 0 <= i < values@.len() ==> least <= #[trigger] values@[i] <= greatest,
{
    values.iter().copied().minmax().into_option()
}

/// The robot: where it stands, the way it faces, and what it has painted.
pub struct Robot {
    pub position: (i64, i64),
    pub direction: Direction,
    pub painted: Map<(i64, i64), PanelColor>,
}

/// The colour that a number of the program stands for.
pub open spec fn color_of(paint: int) -> Option<PanelColor> {
    if paint == 0 {
        Some(PanelColor::Black)
    } else if paint == 1 {
        Some(PanelColor::White)
    } else {
        None
    }
}

/// The colour of the panel at a place: black where it was never painted.
pub open spec fn color_at(painted: Map<(i64, i64), PanelColor>, pos: (i64, i64)) -> PanelColor {
    if painted.contains_key(pos) {
        painted[pos]
    } else {
        PanelColor::Black
    }
}

/// The direction after the turn that a number of the program asks for: 0 is
/// a turn to the left, 1 a turn to the right.
pub open spec fn turned(direction: Direction, turn: int) -> Option<Direction> {
    if turn == 0 {
        Some(direction.spec_turn_left())
    } else if turn == 1 {
        Some(direction.spec_turn_right())
    } else {
        None
    }
}

/// The place one step on, as a place of the hull.
pub open spec fn stepped(direction: Direction, pos: (i64, i64)) -> (i64, i64) {
    let moved = direction.spec_translate_pos((pos.0 as int, pos.1 as int));
    (moved.0 as i64, moved.1 as i64)
}

/// What one panel does to the program and the robot: the program must ask
/// for the colour of the panel under the robot, answer with the colour to
/// paint it, and then with the way to turn, after which the robot moves one
/// step. Where the program halts instead of any of these, the painting is
/// over, which the `bool` says.
pub open spec fn panel_of(m: Machine, robot: Robot) -> Result<(Machine, Robot, bool), Failure> {
    match next_event(m) {
        Err(failure) => Err(failure),
        Ok((Event::Halted, after)) => Ok((after, robot, true)),
        Ok((Event::Output(out), _)) => Err(Failure::Unexpected(Event::Output(out))),
        Ok((Event::WaitingForInput, asking)) => match next_event(
            supplied(asking, color_at(robot.painted, robot.position).spec_as_i64() as int),
        ) {
            Err(failure) => Err(failure),
            Ok((Event::Halted, after)) => Ok((after, robot, true)),
            Ok((Event::WaitingForInput, _)) => Err(Failure::Unexpected(Event::WaitingForInput)),
            Ok((Event::Output(paint), painting)) => match color_of(paint) {
                None => Err(Failure::Unexpected(Event::Output(paint))),
                Some(color) => {
                    let painted = robot.painted.insert(robot.position, color);
                    match next_event(painting) {
                        Err(failure) => Err(failure),
                        Ok((Event::Halted, after)) => Ok((after, Robot { painted, ..robot }, true)),
                        Ok((Event::WaitingForInput, _)) => Err(
                            Failure::Unexpected(Event::WaitingForInput),
                        ),
                        Ok((Event::Output(turn), turning)) => match turned(robot.direction, turn) {
                            None => Err(Failure::Unexpected(Event::Output(turn))),
                            Some(direction) => Ok(
                                (
                                    turning,
                                    Robot {
                                        position: stepped(direction, robot.position),
                                        direction,
                                        painted,
                                    },
                                    false,
                                ),
                            ),
                        },
                    }
                },
            },
        },
    }
}

/// What the robot has painted when the program halts, for at most `rounds`
/// panels.
pub open spec fn painted_by(m: Machine, robot: Robot, rounds: nat) -> Result<
    Map<(i64, i64), PanelColor>,
    Failure,
>
    decreases rounds,
{
    if rounds == 0 {
        Err(Failure::OutOfSteps)
    } else {
        match panel_of(m, robot) {
            Err(failure) => Err(failure),
            Ok((_, after, true)) => Ok(after.painted),
            Ok((running, after, false)) => painted_by(running, after, (rounds - 1) as nat),
        }
    }
}

/// The hull that the program in a text paints, the robot beginning at the
/// origin and facing north, on a hull that is painted as `hull` says.
pub open spec fn hull_of(input: Seq<char>, hull: Map<(i64, i64), PanelColor>) -> Result<
    Map<(i64, i64), PanelColor>,
    Failure,
> {
    match program_in(input) {
        Err(failure) => Err(failure),
        Ok(program) => painted_by(
            loaded(program),
            Robot { position: (0, 0), direction: Direction::North, painted: hull },
            ROUND_LIMIT as nat,
        ),
    }
}

/// Runs the program of the robot on a hull.
fn paint(input: &str, painted_map: &mut FnvHashMap<(i64, i64), PanelColor>) -> (r: Result<
    (),
    SessionError,
>)
    ensures
        match hull_of(input@, old(painted_map)@) {
            Err(failure) => r matches Err(error) && error@ == failure,
            Ok(hull) => r is Ok && final(painted_map)@ == hull,
        },
{
    let mut vm: IntcodeVM<i64> = IntcodeVM::new(read_memory(input)?);
    let mut current_pos: Position = (0, 0);
    let mut current_direction = Direction::North;
    let ghost whole = hull_of(input@, painted_map@);

    let mut rounds: u64 = ROUND_LIMIT;
    while rounds > 0
        invariant
            -(ROUND_LIMIT - rounds) <= current_pos.0 <= ROUND_LIMIT - rounds,
            -(ROUND_LIMIT - rounds) <= current_pos.1 <= ROUND_LIMIT - rounds,
            painted_by(
                vm@,
                Robot {
                    position: current_pos,
                    direction: current_direction,
                    painted: painted_map@,
                },
                rounds as nat,
            ) == whole,
            whole == hull_of(input@, old(painted_map)@),
        decreases rounds,
    {
        match observe(&mut vm)? {
            VMResult::Halted => {
                return Ok(());
            },
            VMResult::WaitingForInput => {
                let color = match map_get(painted_map, current_pos) {
                    Some(color) => color,
                    None => PanelColor::Black,
                };
                vm.set_next_input(color.as_i64());
            },
            VMResult::Output(out) => {
                return Err(SessionError::Unexpected(VMResult::Output(out)));
            },
        }

        match observe(&mut vm)? {
            VMResult::Halted => {
                return Ok(());
            },
            VMResult::WaitingForInput => {
                return Err(SessionError::Unexpected(VMResult::WaitingForInput));
            },
            VMResult::Output(paint) => {
                let color = if paint == 0 {
                    PanelColor::Black
                } else if paint == 1 {
                    PanelColor::White
                } else {
                    return Err(SessionError::Unexpected(VMResult::Output(paint)));
                };
                map_insert(painted_map, current_pos, color);
            },
        }

        match observe(&mut vm)? {
            VMResult::Halted => {
                return Ok(());
            },
            VMResult::WaitingForInput => {
                return Err(SessionError::Unexpected(VMResult::WaitingForInput));
            },
            VMResult::Output(turn) => {
                if turn == 0 {
                    current_direction = current_direction.turn_left();
                } else if turn == 1 {
                    current_direction = current_direction.turn_right();
                } else {
                    return Err(SessionError::Unexpected(VMResult::Output(turn)));
                }
            },
        }

        current_pos = current_direction.translate_pos(current_pos);
        rounds -= 1;
    }
    Err(SessionError::OutOfSteps)
}

/// The number of panels that the program in a text paints at least once, on
/// a hull that is black all over.
pub fn part1(input: &str) -> (r: Result<usize, SessionError>)
    ensures
        match hull_of(input@, Map::empty()) {
            Err(failure) => r matches Err(error) && error@ == failure,
            Ok(hull) => r matches Ok(count) && count == hull.len(),
        },
{
    let mut painted_map: FnvHashMap<(i64, i64), PanelColor> = FnvHashMap::default();
    paint(input, &mut painted_map)?;
    Ok(map_len(&painted_map))
}

/// The text of the panels from row `top` on down to row `bottom`, each row
/// from column `left` to column `right`, with a line feed after each row.
pub open spec fn rows_of(
    hull: Map<(i64, i64), PanelColor>,
    top: int,
    bottom: int,
    left: int,
    right: int,
) -> Seq<char>
    decreases bottom - top + 1,
{
    if bottom < top {
        Seq::<char>::empty()
    } else {
        rows_of(hull, top, bottom - 1, left, right) + row_of(hull, bottom, left, right).push(
            '\n',
        )
    }
}

/// The text of the panels of one row, from column `left` to column `right`.
pub open spec fn row_of(hull: Map<(i64, i64), PanelColor>, row: int, left: int, right: int) -> Seq<
    char,
>
    decreases right - left + 1,
{
    if right < left {
        Seq::<char>::empty()
    } else {
        row_of(hull, row, left, right - 1).push(
            vstd::std_specs::convert::FromSpec::from_spec(
                color_at(hull, (row as i64, right as i64)),
            ),
        )
    }
}

/// Whether `(top, bottom, left, right)` is the least box that holds every
/// painted panel.
pub open spec fn is_bounding_box(
    hull: Map<(i64, i64), PanelColor>,
    top: int,
    bottom: int,
    left: int,
    right: int,
) -> bool {
    &&& forall|pos: (i64, i64)| #[trigger]
        hull.contains_key(pos) ==> top <= pos.0 <= bottom && left <= pos.1 <= right
    &&& exists|pos: (i64, i64)| #[trigger] hull.contains_key(pos) && pos.0 == top
    &&& exists|pos: (i64, i64)| #[trigger] hull.contains_key(pos) && pos.0 == bottom
    &&& exists|pos: (i64, i64)| #[trigger] hull.contains_key(pos) && pos.1 == left
    &&& exists|pos: (i64, i64)| #[trigger] hull.contains_key(pos) && pos.1 == right
}

/// The picture of a hull: a line feed, and then the rows of the least box
/// that holds every painted panel, with a blank for a black panel and `#`
/// for a white one.
pub fn render(painted_map: &FnvHashMap<(i64, i64), PanelColor>) -> (picture: String)
    requires
        exists|pos: (i64, i64)| painted_map@.contains_key(pos),
    ensures
        exists|top: int, bottom: int, left: int, right: int|
            is_bounding_box(painted_map@, top, bottom, left, right) && #[trigger] rows_of(
                painted_map@,
                top,
                bottom,
                left,
                right,
            ) == picture@.drop_first() && picture@.len() > 0 && picture@[0] == '\n',
{
    let places = map_keys(painted_map);
    let mut rows: Vec<i64> = Vec::new();
    let mut cols: Vec<i64> = Vec::new();
    let mut i: usize = 0;
    while i < places.len()
        invariant
            i <= places@.len(),
            rows@.len() == i,
            cols@.len() == i,
            forall|k: int| 0 <= k < i ==> #[trigger] rows@[k] == places@[k].0,
            forall|k: int| 0 <= k < i ==> #[trigger] cols@[k] == places@[k].1,
        decreases places@.len() - i,
    {
        rows.push(places[i].0);
        cols.push(places[i].1);
        i += 1;
    }
    proof {
        let pos = choose|pos: (i64, i64)| painted_map@.contains_key(pos);
        assert(places@.contains(pos));
    }
    let (row_min, row_max) = match minmax(&rows) {
        Some(bounds) => bounds,
        None => (0, 0),
    };
    let (col_min, col_max) = match minmax(&cols) {
        Some(bounds) => bounds,
        None => (0, 0),
    };
    proof {
        assert forall|pos: (i64, i64)| #[trigger] painted_map@.contains_key(pos) implies row_min
            <= pos.0 <= row_max && col_min <= pos.1 <= col_max by {
            assert(places@.contains(pos));
            let k = choose|k: int| 0 <= k < places@.len() && places@[k] == pos;
            assert(rows@[k] == pos.0);
            assert(cols@[k] == pos.1);
        }
        let a = choose|k: int| 0 <= k < rows@.len() && rows@[k] == row_min;
        assert(places@.contains(places@[a]));
        let b = choose|k: int| 0 <= k < rows@.len() && rows@[k] == row_max;
        assert(places@.contains(places@[b]));
        let c = choose|k: int| 0 <= k < cols@.len() && cols@[k] == col_min;
        assert(places@.contains(places@[c]));
        let d = choose|k: int| 0 <= k < cols@.len() && cols@[k] == col_max;
        assert(places@.contains(places@[d]));
    }

    let mut result = String::new();
    push_char(&mut result, '\n');
    let ghost head = result@;
    let mut row = row_min;
    loop
        invariant_except_break
            row_min <= row <= row_max,
            result@ == head + rows_of(
                painted_map@,
                row_min as int,
                row - 1,
                col_min as int,
                col_max as int,
            ),
        invariant
            head == seq!['\n'],
            col_min <= col_max,
        ensures
            result@ == head + rows_of(
                painted_map@,
                row_min as int,
                row_max as int,
                col_min as int,
                col_max as int,
            ),
        decreases row_max - row,
    {
        let ghost before = result@;
        let mut col = col_min;
        loop
            invariant_except_break
                col_min <= col <= col_max,
                result@ == before + row_of(painted_map@, row as int, col_min as int, col - 1),
            ensures
                result@ == before + row_of(
                    painted_map@,
                    row as int,
                    col_min as int,
                    col_max as int,
                ),
            decreases col_max - col,
        {
            let color = match map_get(painted_map, (row, col)) {
                Some(color) => color,
                None => PanelColor::Black,
            };
            push_char(&mut result, char::from(color));
            if col == col_max {
                break ;
            }
            col += 1;
        }
        push_char(&mut result, '\n');
        if row == row_max {
            break ;
        }
        row += 1;
    }
    result
}

/// The picture that the program in a text paints on a hull that is black
/// but for the white panel at the origin, on which the robot begins.
pub fn part2(input: &str) -> (r: Result<String, SessionError>)
    ensures
        match hull_of(input@, Map::empty().insert((0i64, 0i64), PanelColor::White)) {
            Err(failure) => r matches Err(error) && error@ == failure,
            Ok(hull) => r matches Ok(picture) && exists|
                top: int,
                bottom: int,
                left: int,
                right: int,
            |
                is_bounding_box(hull, top, bottom, left, right) && #[trigger] rows_of(
                    hull,
                    top,
                    bottom,
                    left,
                    right,
                ) == picture@.drop_first() && picture@.len() > 0 && picture@[0] == '\n',
        },
{
    let mut painted_map: FnvHashMap<(i64, i64), PanelColor> = FnvHashMap::default();
    map_insert(&mut painted_map, (0, 0), PanelColor::White);
    paint(input, &mut painted_map)?;
    proof {
        let hull = Map::empty().insert((0i64, 0i64), PanelColor::White);
        lemma_painting_keeps_panels(input@, hull);
        assert(painted_map@.contains_key((0i64, 0i64)));
    }
    Ok(render(&painted_map))
}

/// A panel that was painted before the robot began is painted after it has
/// ended.
pub proof fn lemma_painting_keeps_panels(input: Seq<char>, hull: Map<(i64, i64), PanelColor>)
    ensures
        hull_of(input, hull) matches Ok(after) ==> forall|pos: (i64, i64)|
            hull.contains_key(pos) ==> #[trigger] after.contains_key(pos),
{
    match program_in(input) {
        Err(_) => {},
        Ok(program) => {
            lemma_painted_by_keeps_panels(
                loaded(program),
                Robot { position: (0, 0), direction: Direction::North, painted: hull },
                ROUND_LIMIT as nat,
            );
        },
    }
}

/// Painting only adds to what is painted.
proof fn lemma_painted_by_keeps_panels(m: Machine, robot: Robot, rounds: nat)
    ensures
        painted_by(m, robot, rounds) matches Ok(after) ==> forall|pos: (i64, i64)|
            robot.painted.contains_key(pos) ==> #[trigger] after.contains_key(pos),
    decreases rounds,
{
    if rounds > 0 {
        match panel_of(m, robot) {
            Ok((running, after, false)) => {
                lemma_painted_by_keeps_panels(running, after, (rounds - 1) as nat);
            },
            _ => {},
        }
    }
}

} // verus!
