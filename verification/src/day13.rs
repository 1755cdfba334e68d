//! The arcade cabinet: a program draws tiles on a screen, and is played by
//! moving a paddle under a ball.

use vstd::prelude::*;
use fnv::FnvHashMap;
use crate::hashing::{map_get, map_insert, map_keys};
use crate::machine::{store, Event, Machine};
use crate::session::{
    loaded, next_event, observe, outcome, program_in, read_memory, supplied, Failure,
    SessionError,
};
use crate::text::push_char;
use crate::vm::{IntcodeVM, VMResult};

verus! {

/// A move of the joystick.
#[derive(Debug, Clone, Copy, PartialEq, Eq, Hash, Structural)]
pub enum Move {
    Left,
    StayStill,
    Right,
}

impl Move {
    /// The move in words.
    pub fn as_str(&self) -> (words: &'static str)
        ensures
            words@ == match self {
                Self::Left => "move left"@,
                Self::Right => "move right"@,
                Self::StayStill => "not moving"@,
            },
    {
        match self {
            Self::Left => "move left",
            Self::Right => "move right",
            Self::StayStill => "not moving",
        }
    }

    /// The number that tells the program this move.
    pub open spec fn spec_as_i64(&self) -> i64 {
        match self {
            Move::Left => -1i64,
            Move::StayStill => 0i64,
            Move::Right => 1i64,
        }
    }
}

impl From<Move> for i64 {
    /// The number that tells the program this move: -1 for left, 0 for no
    /// move, 1 for right.
    fn from(value: Move) -> (n: Self) {
        match value {
            Move::Left => -1,
            Move::StayStill => 0,
            Move::Right => 1,
        }
    }
}

impl vstd::std_specs::convert::FromSpecImpl<Move> for i64 {
    open spec fn obeys_from_spec() -> bool {
        true
    }

    open spec fn from_spec(value: Move) -> Self {
        value.spec_as_i64()
    }
}

/// What a tile of the screen shows.
#[derive(Debug, Clone, Copy, PartialEq, Eq, Hash, Structural)]
pub enum TileId {
    Empty,
    Wall,
    Block,
    HorizontalPaddle,
    Ball,
}

/// A number that names no tile.
#[derive(Debug, Clone, Copy, PartialEq, Eq, Structural)]
pub struct UnknownTile(pub i64);

impl TileId {
    /// The tile that a number names.
    pub open spec fn of(value: int) -> Option<TileId> {
        if value == 0 {
            Some(TileId::Empty)
        } else if value == 1 {
            Some(TileId::Wall)
        } else if value == 2 {
            Some(TileId::Block)
        } else if value == 3 {
            Some(TileId::HorizontalPaddle)
        } else if value == 4 {
            Some(TileId::Ball)
        } else {
            None
        }
    }

    /// The character that shows the tile.
    pub open spec fn glyph(&self) -> char {
        match self {
            TileId::Empty => ' ',
            TileId::Wall => '#',
            TileId::Block => '\u{2bc0}',
            TileId::HorizontalPaddle => '\u{2015}',
            TileId::Ball => 'O',
        }
    }

    /// The tile that a number names: 0 is empty, 1 a wall, 2 a block, 3 the
    /// paddle and 4 the ball. Every other number is handed back.
    pub fn try_from(value: i64) -> (r: Result<Self, UnknownTile>)
        ensures
            match TileId::of(value as int) {
                Some(tile) => r == Ok::<TileId, UnknownTile>(tile),
                None => r == Err::<TileId, UnknownTile>(UnknownTile(value)),
            },
    {
        Ok(
            match value {
                0 => Self::Empty,
                1 => Self::Wall,
                2 => Self::Block,
                3 => Self::HorizontalPaddle,
                4 => Self::Ball,
                other => {
                    return Err(UnknownTile(other));
                },
            },
        )
    }
}

impl From<&TileId> for char {
    /// The character that shows the tile.
    fn from(value: &TileId) -> (c: Self) {
        match value {
            TileId::Empty => ' ',
            TileId::Wall => '#',
            TileId::Block => '\u{2bc0}',
            TileId::HorizontalPaddle => '\u{2015}',
            TileId::Ball => 'O',
        }
    }
}

impl vstd::std_specs::convert::FromSpecImpl<&TileId> for char {
    open spec fn obeys_from_spec() -> bool {
        true
    }

    open spec fn from_spec(value: &TileId) -> Self {
        value.glyph()
    }
}

impl From<TileId> for char {
    /// The character that shows the tile.
    fn from(value: TileId) -> (c: Self) {
        char::from(&value)
    }
}

impl vstd::std_specs::convert::FromSpecImpl<TileId> for char {
    open spec fn obeys_from_spec() -> bool {
        true
    }

    open spec fn from_spec(value: TileId) -> Self {
        value.glyph()
    }
}

/// A place on the screen. Neither coordinate is negative.
#[derive(Debug, Clone, Copy, PartialEq, Eq, Hash, Structural)]
pub struct TilePosition {
    pub x: i64,
    pub y: i64,
}

impl TilePosition {
    /// The place in column `x` of row `y`.
    pub fn new(x: i64, y: i64) -> (position: Self)
        requires
            x >= 0,
            y >= 0,
        ensures
            position == (TilePosition { x, y }),
    {
        Self { x, y }
    }
}

/// What the program has drawn, or done instead.
#[derive(Debug, Clone, Copy, PartialEq, Eq, Hash, Structural)]
pub enum DecodeDraw {
    /// A tile at a place of the screen.
    Success(TilePosition, TileId),
    /// The score.
    ScoreDisplay(i64),
    /// Nothing: the program asks for a move of the joystick.
    WaitingForInput,
    /// Nothing: the program has halted.
    Halt,
}

/// The most drawings that are read from the program.
pub const DRAW_LIMIT: u64 = u64::MAX;

/// What three numbers of the program draw: the score where the first two
/// are -1 and 0, and else the tile that the third names, at the place that
/// the first two name. A coordinate below zero, and a number that names no
/// tile, is not expected.
pub open spec fn drawing_of(x: int, y: int, id: int) -> Result<DecodeDraw, Failure> {
    if x == -1 && y == 0 {
        Ok(DecodeDraw::ScoreDisplay(id as i64))
    } else if x < 0 {
        Err(Failure::Unexpected(Event::Output(x)))
    } else if y < 0 {
        Err(Failure::Unexpected(Event::Output(y)))
    } else {
        match TileId::of(id) {
            None => Err(Failure::Unexpected(Event::Output(id))),
            Some(tile) => Ok(DecodeDraw::Success(TilePosition { x: x as i64, y: y as i64 }, tile)),
        }
    }
}

/// What the program draws next, and the machine after it: three outputs
/// make a drawing. Where the program asks for input or halts instead of
/// one of them, that is reported, and what it had begun to draw is dropped.
pub open spec fn next_drawing(m: Machine) -> Result<(DecodeDraw, Machine), Failure> {
    match next_event(m) {
        Err(failure) => Err(failure),
        Ok((Event::WaitingForInput, after)) => Ok((DecodeDraw::WaitingForInput, after)),
        Ok((Event::Halted, after)) => Ok((DecodeDraw::Halt, after)),
        Ok((Event::Output(x), first)) => match next_event(first) {
            Err(failure) => Err(failure),
            Ok((Event::WaitingForInput, after)) => Ok((DecodeDraw::WaitingForInput, after)),
            Ok((Event::Halted, after)) => Ok((DecodeDraw::Halt, after)),
            Ok((Event::Output(y), second)) => match next_event(second) {
                Err(failure) => Err(failure),
                Ok((Event::WaitingForInput, after)) => Ok((DecodeDraw::WaitingForInput, after)),
                Ok((Event::Halted, after)) => Ok((DecodeDraw::Halt, after)),
                Ok((Event::Output(id), third)) => match drawing_of(x, y, id) {
                    Err(failure) => Err(failure),
                    Ok(drawing) => Ok((drawing, third)),
                },
            },
        },
    }
}

/// Reads the next drawing from the program.
pub fn decode_draw(vm: &mut IntcodeVM<i64>) -> (r: Result<DecodeDraw, SessionError>)
    ensures
        match next_drawing(old(vm)@) {
            Err(failure) => r matches Err(error) && error@ == failure,
            Ok((drawing, after)) => r == Ok::<DecodeDraw, SessionError>(drawing) && final(vm)@
                == after,
        },
{
    let x = match observe(vm)? {
        VMResult::Output(v) => v,
        VMResult::WaitingForInput => {
            return Ok(DecodeDraw::WaitingForInput);
        },
        VMResult::Halted => {
            return Ok(DecodeDraw::Halt);
        },
    };

    let y = match observe(vm)? {
        VMResult::Output(v) => v,
        VMResult::WaitingForInput => {
            return Ok(DecodeDraw::WaitingForInput);
        },
        VMResult::Halted => {
            return Ok(DecodeDraw::Halt);
        },
    };

    let id = match observe(vm)? {
        VMResult::Output(v) => v,
        VMResult::WaitingForInput => {
            return Ok(DecodeDraw::WaitingForInput);
        },
        VMResult::Halted => {
            return Ok(DecodeDraw::Halt);
        },
    };

    if x == -1 && y == 0 {
        Ok(DecodeDraw::ScoreDisplay(id))
    } else if x < 0 {
        Err(SessionError::Unexpected(VMResult::Output(x)))
    } else if y < 0 {
        Err(SessionError::Unexpected(VMResult::Output(y)))
    } else {
        match TileId::try_from(id) {
            Ok(tile) => Ok(DecodeDraw::Success(TilePosition::new(x, y), tile)),
            Err(_) => Err(SessionError::Unexpected(VMResult::Output(id))),
        }
    }
}

/// The screen when the program halts, for at most `rounds` drawings: every
/// drawing puts a tile on the screen. The program must neither ask for a
/// move nor show a score.
pub open spec fn screen_of(m: Machine, screen: Map<(i64, i64), TileId>, rounds: nat) -> Result<
    Map<(i64, i64), TileId>,
    Failure,
>
    decreases rounds,
{
    if rounds == 0 {
        Err(Failure::OutOfSteps)
    } else {
        match next_drawing(m) {
            Err(failure) => Err(failure),
            Ok((DecodeDraw::Success(pos, id), after)) => screen_of(
                after,
                screen.insert((pos.x, pos.y), id),
                (rounds - 1) as nat,
            ),
            Ok((DecodeDraw::WaitingForInput, _)) => Err(
                Failure::Unexpected(Event::WaitingForInput),
            ),
            Ok((DecodeDraw::ScoreDisplay(score), _)) => Err(
                Failure::Unexpected(Event::Output(score as int)),
            ),
            Ok((DecodeDraw::Halt, _)) => Ok(screen),
        }
    }
}

/// The places of a screen that show a block.
pub open spec fn blocks_of(screen: Map<(i64, i64), TileId>) -> Set<(i64, i64)> {
    screen.dom().filter(|pos: (i64, i64)| screen[pos] == TileId::Block)
}

/// The number of blocks on the screen.
pub fn count_blocks(tiles: &FnvHashMap<(i64, i64), TileId>) -> (count: usize)
    ensures
        count == blocks_of(tiles@).len(),
{
    let places = map_keys(tiles);
    let mut count: usize = 0;
    let mut i: usize = 0;
    let ghost mut seen: Set<(i64, i64)> = Set::empty();
    while i < places.len()
        invariant
            i <= places@.len(),
            places@.no_duplicates(),
            forall|key: (i64, i64)| places@.contains(key) <==> tiles@.contains_key(key),
            seen.finite(),
            count == seen.len(),
            count <= i,
            forall|pos: (i64, i64)|
                seen.contains(pos) <==> exists|k: int|
                    0 <= k < i && #[trigger] places@[k] == pos && tiles@[pos] == TileId::Block,
        decreases places@.len() - i,
    {
        let place = places[i];
        assert(places@.contains(place));
        let is_block = match map_get(tiles, place) {
            Some(TileId::Block) => true,
            _ => false,
        };
        if is_block {
            assert(!seen.contains(place));
            proof {
                seen = seen.insert(place);
            }
            count += 1;
        }
        i += 1;
    }
    proof {
        assert forall|pos: (i64, i64)| blocks_of(tiles@).contains(pos) implies seen.contains(
            pos,
        ) by {
            assert(places@.contains(pos));
        }
        assert forall|pos: (i64, i64)| seen.contains(pos) implies blocks_of(tiles@).contains(
            pos,
        ) by {
            let k = choose|k: int|
                0 <= k < i && #[trigger] places@[k] == pos && tiles@[pos] == TileId::Block;
            assert(places@.contains(places@[k]));
        }
        assert(seen =~= blocks_of(tiles@));
    }
    count
}

/// The number of blocks on the screen when the program in a text halts.
pub fn part1(input: &str) -> (r: Result<usize, SessionError>)
    ensures
        match program_in(input@) {
            Err(failure) => r matches Err(error) && error@ == failure,
            Ok(program) => match screen_of(loaded(program), Map::empty(), DRAW_LIMIT as nat) {
                Err(failure) => r matches Err(error) && error@ == failure,
                Ok(screen) => r matches Ok(count) && count == blocks_of(screen).len(),
            },
        },
{
    let mut vm = IntcodeVM::new(read_memory(input)?);
    let mut tiles: FnvHashMap<(i64, i64), TileId> = FnvHashMap::default();
    let ghost whole = screen_of(vm@, Map::empty(), DRAW_LIMIT as nat);

    let mut rounds: u64 = DRAW_LIMIT;
    while rounds > 0
        invariant
            screen_of(vm@, tiles@, rounds as nat) == whole,
            program_in(input@) matches Ok(program) && whole == screen_of(
                loaded(program),
                Map::empty(),
                DRAW_LIMIT as nat,
            ),
        decreases rounds,
    {
        match decode_draw(&mut vm)? {
            DecodeDraw::Success(pos, id) => {
                map_insert(&mut tiles, (pos.x, pos.y), id);
            },
            DecodeDraw::WaitingForInput => {
                return Err(SessionError::Unexpected(VMResult::WaitingForInput));
            },
            DecodeDraw::ScoreDisplay(score) => {
                return Err(SessionError::Unexpected(VMResult::Output(score)));
            },
            DecodeDraw::Halt => {
                return Ok(count_blocks(&tiles));
            },
        }
        rounds -= 1;
    }
    Err(SessionError::OutOfSteps)
}

/// The move that brings the paddle under the ball.
pub open spec fn move_toward(ball_x: i64, paddle_x: i64) -> Move {
    if ball_x == paddle_x {
        Move::StayStill
    } else if ball_x > paddle_x {
        Move::Right
    } else {
        Move::Left
    }
}

/// The game as the player sees it: the last score shown, and the columns in
/// which the ball and the paddle were last drawn.
pub struct Game {
    pub score: i64,
    pub ball_x: i64,
    pub paddle_x: i64,
}

/// The score when the program halts, for at most `rounds` drawings. Whenever
/// the program asks for a move, the paddle is moved towards the ball.
pub open spec fn final_score(m: Machine, game: Game, rounds: nat) -> Result<int, Failure>
    decreases rounds,
{
    if rounds == 0 {
        Err(Failure::OutOfSteps)
    } else {
        match next_drawing(m) {
            Err(failure) => Err(failure),
            Ok((DecodeDraw::Success(pos, id), after)) => final_score(
                after,
                if id == TileId::Ball {
                    Game { ball_x: pos.x, ..game }
                } else if id == TileId::HorizontalPaddle {
                    Game { paddle_x: pos.x, ..game }
                } else {
                    game
                },
                (rounds - 1) as nat,
            ),
            Ok((DecodeDraw::WaitingForInput, after)) => final_score(
                supplied(after, move_toward(game.ball_x, game.paddle_x).spec_as_i64() as int),
                game,
                (rounds - 1) as nat,
            ),
            Ok((DecodeDraw::ScoreDisplay(score), after)) => final_score(
                after,
                Game { score, ..game },
                (rounds - 1) as nat,
            ),
            Ok((DecodeDraw::Halt, _)) => Ok(game.score as int),
        }
    }
}

/// What the second part of the puzzle gives for the text of a program: the
/// score at the end of a game that is played for free, with 2 in cell 0.
pub open spec fn score_of(input: Seq<char>) -> Result<int, Failure> {
    match program_in(input) {
        Err(failure) => Err(failure),
        Ok(program) => final_score(
            loaded(store(program, 0, 2)),
            Game { score: 0, ball_x: 0, paddle_x: 0 },
            DRAW_LIMIT as nat,
        ),
    }
}

/// Plays the game of the program in a text, the paddle following the ball,
/// and returns the score when the program halts.
pub fn part2(input: &str) -> (r: Result<i64, SessionError>)
    ensures
        outcome(r) == score_of(input@),
{
    let mut memory = read_memory(input)?;
    memory.set(0, 2);

    let mut vm = IntcodeVM::new(memory);
    let mut tiles: FnvHashMap<(i64, i64), TileId> = FnvHashMap::default();
    let mut score: i64 = 0;
    let mut last_ball_pos_x: i64 = 0;
    let mut last_paddle_pos_x: i64 = 0;
    let ghost whole = score_of(input@);

    let mut rounds: u64 = DRAW_LIMIT;
    while rounds > 0
        invariant
            final_score(
                vm@,
                Game { score, ball_x: last_ball_pos_x, paddle_x: last_paddle_pos_x },
                rounds as nat,
            ) == whole,
            whole == score_of(input@),
        decreases rounds,
    {
        match decode_draw(&mut vm)? {
            DecodeDraw::Success(pos, id) => {
                map_insert(&mut tiles, (pos.x, pos.y), id);
                if id == TileId::Ball {
                    last_ball_pos_x = pos.x;
                } else if id == TileId::HorizontalPaddle {
                    last_paddle_pos_x = pos.x;
                }
            },
            DecodeDraw::WaitingForInput => {
                let mv = if last_ball_pos_x == last_paddle_pos_x {
                    Move::StayStill
                } else if last_ball_pos_x > last_paddle_pos_x {
                    Move::Right
                } else {
                    Move::Left
                };
                vm.set_next_input(i64::from(mv));
            },
            DecodeDraw::ScoreDisplay(v) => {
                score = v;
            },
            DecodeDraw::Halt => {
                return Ok(score);
            },
        }
        rounds -= 1;
    }
    Err(SessionError::OutOfSteps)
}

/// The text of the rows of a screen from row 0 to row `bottom`, each from
/// column 0 to column `right`, with a line feed after each row. A place that
/// was never drawn shows as empty.
pub open spec fn screen_rows(screen: Map<(i64, i64), TileId>, bottom: int, right: int) -> Seq<char>
    decreases bottom + 1,
{
    if bottom < 0 {
        Seq::<char>::empty()
    } else {
        screen_rows(screen, bottom - 1, right) + screen_row(screen, bottom, right).push('\n')
    }
}

/// The text of row `y` of a screen, from column 0 to column `right`.
pub open spec fn screen_row(screen: Map<(i64, i64), TileId>, y: int, right: int) -> Seq<char>
    decreases right + 1,
{
    if right < 0 {
        Seq::<char>::empty()
    } else {
        screen_row(screen, y, right - 1).push(
            if screen.contains_key((right as i64, y as i64)) {
                screen[(right as i64, y as i64)].glyph()
            } else {
                TileId::Empty.glyph()
            },
        )
    }
}

/// Whether `right` and `bottom` are the greatest column and the greatest row
/// of a place of the screen.
pub open spec fn is_extent(screen: Map<(i64, i64), TileId>, right: int, bottom: int) -> bool {
    &&& forall|pos: (i64, i64)| #[trigger] screen.contains_key(pos) ==> pos.0 <= right && pos.1
        <= bottom
    &&& exists|pos: (i64, i64)| #[trigger] screen.contains_key(pos) && pos.0 == right
    &&& exists|pos: (i64, i64)| #[trigger] screen.contains_key(pos) && pos.1 == bottom
}

/// The picture of a screen that holds at least one tile: its rows from row 0
/// to the lowest row, each from column 0 to the last column.
pub fn draw(tiles: &FnvHashMap<(i64, i64), TileId>) -> (drawn: String)
    requires
        exists|pos: (i64, i64)| tiles@.contains_key(pos),
    ensures
        exists|right: int, bottom: int|
            is_extent(tiles@, right, bottom) && drawn@ == #[trigger] screen_rows(
                tiles@,
                bottom,
                right,
            ),
{
    let places = map_keys(tiles);
    proof {
        let pos = choose|pos: (i64, i64)| tiles@.contains_key(pos);
        assert(places@.contains(pos));
    }
    let mut max_x = places[0].0;
    let mut max_y = places[0].1;
    let mut i: usize = 1;
    while i < places.len()
        invariant
            1 <= i <= places@.len(),
            forall|k: int| 0 <= k < i ==> (#[trigger] places@[k]).0 <= max_x && places@[k].1
                <= max_y,
            exists|k: int| 0 <= k < i && (#[trigger] places@[k]).0 == max_x,
            exists|k: int| 0 <= k < i && (#[trigger] places@[k]).1 == max_y,
        decreases places@.len() - i,
    {
        if places[i].0 > max_x {
            max_x = places[i].0;
        }
        if places[i].1 > max_y {
            max_y = places[i].1;
        }
        i += 1;
    }
    proof {
        assert forall|pos: (i64, i64)| #[trigger] tiles@.contains_key(pos) implies pos.0 <= max_x
            && pos.1 <= max_y by {
            assert(places@.contains(pos));
        }
        let a = choose|k: int| 0 <= k < places@.len() && (#[trigger] places@[k]).0 == max_x;
        assert(places@.contains(places@[a]));
        let b = choose|k: int| 0 <= k < places@.len() && (#[trigger] places@[k]).1 == max_y;
        assert(places@.contains(places@[b]));
    }

    let mut drawn = String::new();
    if max_y < 0 {
        assert(drawn@ =~= screen_rows(tiles@, max_y as int, max_x as int));
        return drawn;
    }
    let mut y: i64 = 0;
    loop
        invariant_except_break
            0 <= y <= max_y,
            drawn@ == screen_rows(tiles@, y - 1, max_x as int),
        ensures
            drawn@ == screen_rows(tiles@, max_y as int, max_x as int),
        decreases max_y - y,
    {
        let ghost before = drawn@;
        if max_x >= 0 {
            let mut x: i64 = 0;
            loop
                invariant_except_break
                    0 <= x <= max_x,
                    drawn@ == before + screen_row(tiles@, y as int, x - 1),
                ensures
                    drawn@ == before + screen_row(tiles@, y as int, max_x as int),
                decreases max_x - x,
            {
                let tile = match map_get(tiles, (x, y)) {
                    Some(tile) => tile,
                    None => TileId::Empty,
                };
                push_char(&mut drawn, char::from(tile));
                if x == max_x {
                    break ;
                }
                x += 1;
            }
        }
        push_char(&mut drawn, '\n');
        if y == max_y {
            break ;
        }
        y += 1;
    }
    drawn
}

} // verus!
