//! Crossed wires: two wires are laid out on a grid from a common origin, and
//! the crossing that is nearest to the origin, or soonest reached, is wanted.

use vstd::prelude::*;
use crate::number::{number_of, parse_i64, NumberError};
use crate::text::{chars_of, lines, lines_of, split, split_on, texts_of, trim, trimmed};

verus! {

/// The distance between two numbers.
pub open spec fn gap(a: int, b: int) -> int {
    if a >= b {
        a - b
    } else {
        b - a
    }
}

/// The distance between two coordinates.
fn coordinate_gap(a: i64, b: i64) -> (d: u64)
    ensures
        d == gap(a as int, b as int),
{
    if a >= b {
        (a as i128 - b as i128) as u64
    } else {
        (b as i128 - a as i128) as u64
    }
}

/// A place on the grid.
#[derive(Debug, Clone, Copy, PartialEq, Eq, Hash, Structural)]
pub struct Point {
    pub x: i64,
    pub y: i64,
}

impl Point {
    /// The distance to the origin, along the grid.
    pub open spec fn spec_distance(&self) -> int {
        gap(self.x as int, 0) + gap(self.y as int, 0)
    }

    /// The distance to `other`, along the grid.
    pub open spec fn spec_distance_from(&self, other: &Point) -> int {
        gap(self.x as int, other.x as int) + gap(self.y as int, other.y as int)
    }

    /// The distance to the origin, along the grid.
    pub fn distance(&self) -> (d: i64)
        requires
            self.spec_distance() <= i64::MAX,
        ensures
            d == self.spec_distance(),
    {
        let total = coordinate_gap(self.x, 0) + coordinate_gap(self.y, 0);
        total as i64
    }

    /// The distance to `other`, along the grid.
    pub fn distance_from(&self, other: &Point) -> (d: u64)
        requires
            self.spec_distance_from(other) <= u64::MAX,
        ensures
            d == self.spec_distance_from(other),
    {
        coordinate_gap(self.x, other.x) + coordinate_gap(self.y, other.y)
    }
}

/// A straight piece of wire between two places. A segment whose ends have
/// the same `x` is vertical; every other segment counts as horizontal.
#[derive(Debug, Clone, Copy, PartialEq, Eq, Hash)]
pub struct Segment {
    pub segment_ends: (Point, Point),
}

/// The lesser of two numbers.
pub open spec fn lesser(a: int, b: int) -> int {
    if a < b {
        a
    } else {
        b
    }
}

/// The greater of two numbers.
pub open spec fn greater(a: int, b: int) -> int {
    if a > b {
        a
    } else {
        b
    }
}

/// Where a vertical segment and a horizontal one cross: at the `x` of the
/// vertical and the `y` of the horizontal one, if that place lies within the
/// height of the one and the width of the other. Two segments of the same
/// direction do not cross.
pub open spec fn crossing(a: Segment, b: Segment) -> Option<Point> {
    let (vertical, horizontal) = if a.spec_is_vertical() {
        (a, b)
    } else {
        (b, a)
    };
    let x = vertical.segment_ends.0.x;
    let y = horizontal.segment_ends.0.y;
    if a.spec_is_vertical() == b.spec_is_vertical() {
        None
    } else if lesser(vertical.segment_ends.0.y as int, vertical.segment_ends.1.y as int) <= y
        <= greater(vertical.segment_ends.0.y as int, vertical.segment_ends.1.y as int) && lesser(
        horizontal.segment_ends.0.x as int,
        horizontal.segment_ends.1.x as int,
    ) <= x <= greater(horizontal.segment_ends.0.x as int, horizontal.segment_ends.1.x as int) {
        Some(Point { x, y })
    } else {
        None
    }
}

impl Segment {
    /// Whether the ends have the same `x`.
    pub open spec fn spec_is_vertical(&self) -> bool {
        self.segment_ends.0.x == self.segment_ends.1.x
    }

    /// The length of the segment, along the grid.
    pub open spec fn spec_length(&self) -> int {
        self.segment_ends.0.spec_distance_from(&self.segment_ends.1)
    }

    /// Whether `p` lies on the segment, given that the segment runs along an
    /// axis.
    pub open spec fn holds(&self, p: Point) -> bool {
        &&& lesser(self.segment_ends.0.x as int, self.segment_ends.1.x as int) <= p.x <= greater(
            self.segment_ends.0.x as int,
            self.segment_ends.1.x as int,
        )
        &&& lesser(self.segment_ends.0.y as int, self.segment_ends.1.y as int) <= p.y <= greater(
            self.segment_ends.0.y as int,
            self.segment_ends.1.y as int,
        )
    }

    /// Whether the segment runs along one of the two axes.
    pub open spec fn along_axis(&self) -> bool {
        self.segment_ends.0.x == self.segment_ends.1.x || self.segment_ends.0.y
            == self.segment_ends.1.y
    }

    pub fn min_x(&self) -> (x: i64)
        ensures
            x == lesser(self.segment_ends.0.x as int, self.segment_ends.1.x as int),
    {
        let x1 = self.segment_ends.0.x;
        let x2 = self.segment_ends.1.x;

        if x1 < x2 {
            x1
        } else {
            x2
        }
    }

    pub fn max_x(&self) -> (x: i64)
        ensures
            x == greater(self.segment_ends.0.x as int, self.segment_ends.1.x as int),
    {
        let x1 = self.segment_ends.0.x;
        let x2 = self.segment_ends.1.x;

        if x1 > x2 {
            x1
        } else {
            x2
        }
    }

    pub fn min_y(&self) -> (y: i64)
        ensures
            y == lesser(self.segment_ends.0.y as int, self.segment_ends.1.y as int),
    {
        let y1 = self.segment_ends.0.y;
        let y2 = self.segment_ends.1.y;

        if y1 < y2 {
            y1
        } else {
            y2
        }
    }

    pub fn max_y(&self) -> (y: i64)
        ensures
            y == greater(self.segment_ends.0.y as int, self.segment_ends.1.y as int),
    {
        let y1 = self.segment_ends.0.y;
        let y2 = self.segment_ends.1.y;

        if y1 > y2 {
            y1
        } else {
            y2
        }
    }

    /// The `x` of the first end: the `x` of every place of a vertical
    /// segment.
    pub fn any_x(&self) -> (x: i64)
        ensures
            x == self.segment_ends.0.x,
    {
        self.segment_ends.0.x
    }

    /// The `y` of the first end: the `y` of every place of a segment that
    /// runs from left to right.
    pub fn any_y(&self) -> (y: i64)
        ensures
            y == self.segment_ends.0.y,
    {
        self.segment_ends.0.y
    }

    pub fn is_vertical(&self) -> (vertical: bool)
        ensures
            vertical == self.spec_is_vertical(),
    {
        self.segment_ends.0.x == self.segment_ends.1.x
    }

    pub fn is_horizontal(&self) -> (horizontal: bool)
        ensures
            horizontal == !self.spec_is_vertical(),
    {
        !self.is_vertical()
    }

    /// The place where the two segments cross, if they do.
    pub fn intersection_point(&self, other: &Segment) -> (point: Option<Point>)
        ensures
            point == crossing(*self, *other),
    {
        if self.is_vertical() {
            if other.is_vertical() {
                None
            } else if self.min_y() <= other.any_y() && other.any_y() <= self.max_y()
                && other.min_x() <= self.any_x() && self.any_x() <= other.max_x() {
                Some(Point { x: self.any_x(), y: other.any_y() })
            } else {
                None
            }
        } else if other.is_horizontal() {
            None
        } else if self.min_x() <= other.any_x() && other.any_x() <= self.max_x() && other.min_y()
            <= self.any_y() && self.any_y() <= other.max_y() {
            Some(Point { x: other.any_x(), y: self.any_y() })
        } else {
            None
        }
    }

    /// The length of the segment, along the grid.
    pub fn length(&self) -> (l: u64)
        requires
            self.spec_length() <= u64::MAX,
        ensures
            l == self.spec_length(),
    {
        self.segment_ends.0.distance_from(&self.segment_ends.1)
    }
}

impl From<(Point, Point)> for Segment {
    fn from(value: (Point, Point)) -> (segment: Self) {
        Self { segment_ends: value }
    }
}

impl vstd::std_specs::convert::FromSpecImpl<(Point, Point)> for Segment {
    open spec fn obeys_from_spec() -> bool {
        true
    }

    open spec fn from_spec(value: (Point, Point)) -> Self {
        Segment { segment_ends: value }
    }
}

/// Crossing does not depend on the order of the two segments.
pub proof fn lemma_crossing_is_symmetric(a: Segment, b: Segment)
    ensures
        crossing(a, b) == crossing(b, a),
{
}

/// Two segments that run along the axes cross at a place exactly if it is
/// the one place that lies on both, one being vertical and the other not.
pub proof fn lemma_crossing_lies_on_both(a: Segment, b: Segment, p: Point)
    requires
        a.along_axis(),
        b.along_axis(),
        a.spec_is_vertical() != b.spec_is_vertical(),
    ensures
        crossing(a, b) == Some(p) <==> a.holds(p) && b.holds(p),
{
}

/// Why a text describes no pair of wires.
#[derive(Debug, Clone, Copy, PartialEq, Eq)]
pub enum WireError {
    /// The text does not have exactly two lines.
    NotTwoLines,
    /// A move does not begin with one of `U`, `D`, `L` and `R`.
    UnknownDirection,
    /// What follows the direction of a move is no number.
    BadNumber(NumberError),
    /// A move leads to a place whose coordinates are no `i64`.
    OutOfRange,
}

/// The change of place that a move stands for: a direction and a number of
/// steps. Up and right count upwards.
pub open spec fn move_of(field: Seq<char>) -> Result<(int, int), WireError> {
    if field.len() == 0 || !(field[0] == 'U' || field[0] == 'D' || field[0] == 'L' || field[0]
        == 'R') {
        Err(WireError::UnknownDirection)
    } else {
        match number_of(field.drop_first(), i64::MIN as int, i64::MAX as int) {
            Err(error) => Err(WireError::BadNumber(error)),
            Ok(n) => if field[0] == 'U' {
                Ok((0, n))
            } else if field[0] == 'D' {
                Ok((0, -n))
            } else if field[0] == 'L' {
                Ok((-n, 0))
            } else {
                Ok((n, 0))
            },
        }
    }
}

/// The place where a wire ends: the origin for a wire without segments.
pub open spec fn end_of(wire: Seq<Segment>) -> Point {
    if wire.len() == 0 {
        Point { x: 0, y: 0 }
    } else {
        wire.last().segment_ends.1
    }
}

/// The wire that a list of moves lays out from the origin, each segment
/// beginning where the one before it ends. The first move that is malformed
/// or leaves the grid decides the error.
pub open spec fn laid(fields: Seq<Seq<char>>) -> Result<Seq<Segment>, WireError>
    decreases fields.len(),
{
    if fields.len() == 0 {
        Ok(Seq::<Segment>::empty())
    } else {
        match laid(fields.drop_last()) {
            Err(error) => Err(error),
            Ok(before) => match move_of(trimmed(fields.last())) {
                Err(error) => Err(error),
                Ok((dx, dy)) => {
                    let start = end_of(before);
                    if i64::MIN <= start.x + dx <= i64::MAX && i64::MIN <= start.y + dy
                        <= i64::MAX {
                        Ok(
                            before.push(
                                Segment {
                                    segment_ends: (
                                        start,
                                        Point { x: (start.x + dx) as i64, y: (start.y + dy) as i64 },
                                    ),
                                },
                            ),
                        )
                    } else {
                        Err(WireError::OutOfRange)
                    }
                },
            },
        }
    }
}

/// The two wires that a text describes: one wire on each of its two lines,
/// as moves with commas between them.
pub open spec fn wires_of(input: Seq<char>) -> Result<(Seq<Segment>, Seq<Segment>), WireError> {
    let rows = lines_of(input);
    if rows.len() != 2 {
        Err(WireError::NotTwoLines)
    } else {
        match laid(split_on(rows[0], ',')) {
            Err(error) => Err(error),
            Ok(first) => match laid(split_on(rows[1], ',')) {
                Err(error) => Err(error),
                Ok(second) => Ok((first, second)),
            },
        }
    }
}

/// Where the first moves of a list fail, the whole list fails in the same
/// way.
proof fn lemma_laid_fails_on(fields: Seq<Seq<char>>, n: int)
    requires
        0 <= n <= fields.len(),
    ensures
        laid(fields.take(n)) matches Err(error) ==> laid(fields) == Err::<Seq<Segment>, WireError>(
            error,
        ),
    decreases fields.len() - n,
{
    if n == fields.len() {
        assert(fields.take(n) =~= fields);
    } else {
        lemma_laid_fails_on(fields.drop_last(), n);
        assert(fields.drop_last().take(n) =~= fields.take(n));
    }
}

/// Reads one move.
fn parse_move(field: &[char]) -> (r: Result<(i128, i128), WireError>)
    ensures
        match move_of(field@) {
            Ok((dx, dy)) => r == Ok::<(i128, i128), WireError>((dx as i128, dy as i128)) && dx
                == dx as i128 && dy == dy as i128 && -0x8000_0000_0000_0000 <= dx
                <= 0x8000_0000_0000_0000 && -0x8000_0000_0000_0000 <= dy <= 0x8000_0000_0000_0000,
            Err(error) => r == Err::<(i128, i128), WireError>(error),
        },
{
    if field.len() == 0 {
        return Err(WireError::UnknownDirection);
    }
    let direction = field[0];
    if !(direction == 'U' || direction == 'D' || direction == 'L' || direction == 'R') {
        return Err(WireError::UnknownDirection);
    }
    let rest = crate::text::slice_of(field, 1, field.len());
    let n: i128 = match parse_i64(rest.as_slice()) {
        Ok(n) => n as i128,
        Err(error) => {
            return Err(WireError::BadNumber(error));
        },
    };
    if direction == 'U' {
        Ok((0, n))
    } else if direction == 'D' {
        Ok((0, -n))
    } else if direction == 'L' {
        Ok((-n, 0))
    } else {
        Ok((n, 0))
    }
}

/// What reading a wire gives, given what the text stands for.
pub open spec fn parsed_wire(r: Result<Vec<Segment>, WireError>, expected: Result<
    Seq<Segment>,
    WireError,
>) -> bool {
    match expected {
        Ok(wire) => r matches Ok(segments) && segments@ == wire,
        Err(error) => r matches Err(e) && e == error,
    }
}

/// Lays out the wire that one line describes.
fn parse_wire(line: &[char]) -> (r: Result<Vec<Segment>, WireError>)
    ensures
        parsed_wire(r, laid(split_on(line@, ','))),
{
    let fields = split(line, ',');
    let mut result: Vec<Segment> = Vec::new();
    let mut previous_point = Point { x: 0, y: 0 };
    let mut i: usize = 0;
    while i < fields.len()
        invariant
            i <= fields@.len(),
            texts_of(fields@) == split_on(line@, ','),
            laid(texts_of(fields@).take(i as int)) == Ok::<Seq<Segment>, WireError>(result@),
            previous_point == end_of(result@),
        decreases fields@.len() - i,
    {
        let ghost through = texts_of(fields@).take(i + 1);
        assert(through.drop_last() =~= texts_of(fields@).take(i as int));
        proof {
            lemma_laid_fails_on(texts_of(fields@), i + 1);
        }
        let part = trim(fields[i].as_slice());
        let (dx, dy) = match parse_move(part.as_slice()) {
            Ok(delta) => delta,
            Err(error) => {
                return Err(error);
            },
        };
        let x = previous_point.x as i128 + dx;
        let y = previous_point.y as i128 + dy;
        if x < i64::MIN as i128 || x > i64::MAX as i128 || y < i64::MIN as i128 || y
            > i64::MAX as i128 {
            return Err(WireError::OutOfRange);
        }
        let new_point = Point { x: x as i64, y: y as i64 };
        result.push(Segment::from((previous_point, new_point)));
        previous_point = new_point;
        i += 1;
    }
    assert(texts_of(fields@).take(fields@.len() as int) =~= texts_of(fields@));
    Ok(result)
}

/// What reading the wires gives, given what the text stands for.
pub open spec fn parsed_wires(
    r: Result<(Vec<Segment>, Vec<Segment>), WireError>,
    expected: Result<(Seq<Segment>, Seq<Segment>), WireError>,
) -> bool {
    match expected {
        Ok(wires) => r matches Ok(pair) && pair.0@ == wires.0 && pair.1@ == wires.1,
        Err(error) => r matches Err(e) && e == error,
    }
}

/// Reads the two wires of a text: one on each of its two lines, as moves
/// with commas between them, such as `R8,U5,L5,D3`.
pub fn parse(input: &str) -> (r: Result<(Vec<Segment>, Vec<Segment>), WireError>)
    ensures
        parsed_wires(r, wires_of(input@)),
{
    let text = chars_of(input);
    let rows = lines(text.as_slice());
    if rows.len() != 2 {
        return Err(WireError::NotTwoLines);
    }
    let first = parse_wire(rows[0].as_slice())?;
    let second = parse_wire(rows[1].as_slice())?;
    Ok((first, second))
}

/// The place where segment `i` of the first wire and segment `j` of the
/// second cross, unless it is the origin, at which both wires begin.
pub open spec fn crossing_at(first: Seq<Segment>, second: Seq<Segment>, i: int, j: int) -> Option<
    Point,
> {
    if 0 <= i < first.len() && 0 <= j < second.len() {
        match crossing(second[j], first[i]) {
            Some(p) => if p.x == 0 && p.y == 0 {
                None
            } else {
                Some(p)
            },
            None => None,
        }
    } else {
        None
    }
}

/// The distance from the origin to the place where segment `i` of the first
/// wire and segment `j` of the second cross.
pub open spec fn distance_to(first: Seq<Segment>, second: Seq<Segment>, i: int, j: int) -> int
    recommends
        crossing_at(first, second, i, j) is Some,
{
    crossing_at(first, second, i, j)->0.spec_distance()
}

/// The distance from the origin to the nearest place, other than the origin,
/// where the two wires cross.
pub fn part1(wires: &(Vec<Segment>, Vec<Segment>)) -> (nearest: i64)
    requires
        exists|i: int, j: int|
#![trigger crossing_at(wires.0@, wires.1@, i, j)] crossing_at(wires.0@, wires.1@, i, j) is Some,
        forall|i: int, j: int|
#![trigger crossing_at(wires.0@, wires.1@, i, j)]
            crossing_at(wires.0@, wires.1@, i, j) is Some ==> distance_to(
                wires.0@,
                wires.1@,
                i,
                j,
            ) <= i64::MAX,
    ensures
        exists|i: int, j: int|
#![trigger crossing_at(wires.0@, wires.1@, i, j)]
            crossing_at(wires.0@, wires.1@, i, j) is Some && distance_to(wires.0@, wires.1@, i, j)
                == nearest,
        forall|i: int, j: int|
#![trigger crossing_at(wires.0@, wires.1@, i, j)]
            crossing_at(wires.0@, wires.1@, i, j) is Some ==> nearest <= distance_to(
                wires.0@,
                wires.1@,
                i,
                j,
            ),
{
    let mut best: Option<i64> = None;
    let mut a: usize = 0;
    while a < wires.0.len()
        invariant
            a <= wires.0@.len(),
            forall|i: int, j: int|
#![trigger crossing_at(wires.0@, wires.1@, i, j)]
                crossing_at(wires.0@, wires.1@, i, j) is Some ==> distance_to(
                    wires.0@,
                    wires.1@,
                    i,
                    j,
                ) <= i64::MAX,
            best is None ==> forall|i: int, j: int|
#![trigger crossing_at(wires.0@, wires.1@, i, j)]
                i < a ==> crossing_at(wires.0@, wires.1@, i, j) is None,
            best matches Some(d) ==> {
                &&& exists|i: int, j: int|
#![trigger crossing_at(wires.0@, wires.1@, i, j)]
                    crossing_at(wires.0@, wires.1@, i, j) is Some && distance_to(
                        wires.0@,
                        wires.1@,
                        i,
                        j,
                    ) == d
                &&& forall|i: int, j: int|
#![trigger crossing_at(wires.0@, wires.1@, i, j)]
                    i < a && crossing_at(wires.0@, wires.1@, i, j) is Some ==> d <= distance_to(
                        wires.0@,
                        wires.1@,
                        i,
                        j,
                    )
            },
        decreases wires.0@.len() - a,
    {
        let a_segment = &wires.0[a];
        let mut b: usize = 0;
        while b < wires.1.len()
            invariant
                a < wires.0@.len(),
                b <= wires.1@.len(),
                *a_segment == wires.0@[a as int],
                forall|i: int, j: int|
#![trigger crossing_at(wires.0@, wires.1@, i, j)]
                    crossing_at(wires.0@, wires.1@, i, j) is Some ==> distance_to(
                        wires.0@,
                        wires.1@,
                        i,
                        j,
                    ) <= i64::MAX,
                best is None ==> forall|i: int, j: int|
#![trigger crossing_at(wires.0@, wires.1@, i, j)]
                    (i < a as int || (i == a as int && j < b as int)) ==> crossing_at(
                        wires.0@,
                        wires.1@,
                        i,
                        j,
                    ) is None,
                best matches Some(d) ==> {
                    &&& exists|i: int, j: int|
#![trigger crossing_at(wires.0@, wires.1@, i, j)]
                        crossing_at(wires.0@, wires.1@, i, j) is Some && distance_to(
                            wires.0@,
                            wires.1@,
                            i,
                            j,
                        ) == d
                    &&& forall|i: int, j: int|
#![trigger crossing_at(wires.0@, wires.1@, i, j)]
                        (i < a as int || (i == a as int && j < b as int)) && crossing_at(
                            wires.0@,
                            wires.1@,
                            i,
                            j,
                        ) is Some ==> d <= distance_to(wires.0@, wires.1@, i, j)
                },
            decreases wires.1@.len() - b,
        {
            let b_segment = &wires.1[b];
            match b_segment.intersection_point(a_segment) {
                Some(point) => {
                    if !(point.x == 0 && point.y == 0) {
                        assert(crossing_at(wires.0@, wires.1@, a as int, b as int) == Some(point));
                        let d = point.distance();
                        best = match best {
                            Some(known) => if known <= d {
                                Some(known)
                            } else {
                                Some(d)
                            },
                            None => Some(d),
                        };
                    }
                },
                None => {},
            }
            b += 1;
        }
        a += 1;
    }
    match best {
        Some(d) => d,
        None => {
            0
        },
    }
}

/// The length of the first `k` segments of a wire together.
pub open spec fn length_before(wire: Seq<Segment>, k: int) -> int
    decreases k,
{
    if k <= 0 {
        0
    } else {
        length_before(wire, k - 1) + wire[k - 1].spec_length()
    }
}

/// The length of a wire grows with the number of its segments.
pub proof fn lemma_length_before_grows(wire: Seq<Segment>, k: int, n: int)
    requires
        0 <= k <= n,
    ensures
        0 <= length_before(wire, k) <= length_before(wire, n),
    decreases n,
{
    if k < n {
        lemma_length_before_grows(wire, k, n - 1);
    } else if n > 0 {
        lemma_length_before_grows(wire, k - 1, n - 1);
    }
}

/// A walk along the segments of a wire that knows, at each segment, the
/// length of the wire before it.
#[derive(Debug, Clone)]
pub struct SegmentSliceIterator<'s> {
    segments: &'s [Segment],
    position: usize,
    current_length: u64,
}

impl<'s> SegmentSliceIterator<'s> {
    /// The wire that is walked along.
    pub closed spec fn wire(&self) -> Seq<Segment> {
        self.segments@
    }

    /// The number of segments that were handed out.
    pub closed spec fn position(&self) -> int {
        self.position as int
    }

    /// Whether the walk has kept count: it has handed out no more segments
    /// than there are, and knows the length of those.
    pub closed spec fn well_formed(&self) -> bool {
        &&& self.position <= self.segments@.len()
        &&& self.current_length == length_before(self.segments@, self.position as int)
    }

    /// A walk that begins at the first segment.
    pub fn new(segments: &'s [Segment]) -> (walk: Self)
        ensures
            walk.well_formed(),
            walk.wire() == segments@,
            walk.position() == 0,
    {
        Self { segments, position: 0, current_length: 0 }
    }

    /// The next segment, with the length of the wire before it; `None` at
    /// the end of the wire.
    pub fn next(&mut self) -> (item: Option<(u64, &'s Segment)>)
        requires
            old(self).well_formed(),
            length_before(old(self).wire(), old(self).wire().len() as int) <= u64::MAX,
        ensures
            final(self).well_formed(),
            final(self).wire() == old(self).wire(),
            match item {
                Some((length, segment)) => {
                    &&& old(self).position() < old(self).wire().len()
                    &&& final(self).position() == old(self).position() + 1
                    &&& length == length_before(old(self).wire(), old(self).position())
                    &&& *segment == old(self).wire()[old(self).position()]
                },
                None => old(self).position() == old(self).wire().len() && final(self).position()
                    == old(self).position(),
            },
    {
        let length = self.current_length;
        if self.position >= self.segments.len() {
            return None;
        }
        let element = &self.segments[self.position];
        proof {
            lemma_length_before_grows(
                self.segments@,
                self.position + 1,
                self.segments@.len() as int,
            );
        }
        self.current_length += element.length();
        self.position += 1;
        Some((length, element))
    }
}

/// The number of steps along both wires to the place where segment `i` of
/// the first and segment `j` of the second cross.
pub open spec fn steps_to(first: Seq<Segment>, second: Seq<Segment>, i: int, j: int) -> int
    recommends
        crossing_at(first, second, i, j) is Some,
{
    let p = crossing_at(first, second, i, j)->0;
    length_before(first, i) + length_before(second, j) + p.spec_distance_from(
        &first[i].segment_ends.0,
    ) + p.spec_distance_from(&second[j].segment_ends.0)
}

/// The least number of steps along both wires together to a place, other
/// than the origin, where they cross.
pub fn part2(wires: &(Vec<Segment>, Vec<Segment>)) -> (fewest: u64)
    requires
        exists|i: int, j: int|
#![trigger crossing_at(wires.0@, wires.1@, i, j)] crossing_at(wires.0@, wires.1@, i, j) is Some,
        length_before(wires.0@, wires.0@.len() as int) <= u64::MAX,
        length_before(wires.1@, wires.1@.len() as int) <= u64::MAX,
        forall|i: int, j: int|
#![trigger crossing_at(wires.0@, wires.1@, i, j)]
            crossing_at(wires.0@, wires.1@, i, j) is Some ==> steps_to(wires.0@, wires.1@, i, j)
                <= u64::MAX,
    ensures
        exists|i: int, j: int|
#![trigger crossing_at(wires.0@, wires.1@, i, j)]
            crossing_at(wires.0@, wires.1@, i, j) is Some && steps_to(wires.0@, wires.1@, i, j)
                == fewest,
        forall|i: int, j: int|
#![trigger crossing_at(wires.0@, wires.1@, i, j)]
            crossing_at(wires.0@, wires.1@, i, j) is Some ==> fewest <= steps_to(
                wires.0@,
                wires.1@,
                i,
                j,
            ),
{
    let wire_a = wires.0.as_slice();
    let wire_b = wires.1.as_slice();
    let mut best: Option<u64> = None;
    let mut walk_a = SegmentSliceIterator::new(wire_a);
    loop
        invariant
            wire_a@ == wires.0@,
            wire_b@ == wires.1@,
            walk_a.well_formed(),
            walk_a.wire() == wires.0@,
            length_before(wires.0@, wires.0@.len() as int) <= u64::MAX,
            length_before(wires.1@, wires.1@.len() as int) <= u64::MAX,
            forall|i: int, j: int|
#![trigger crossing_at(wires.0@, wires.1@, i, j)]
                crossing_at(wires.0@, wires.1@, i, j) is Some ==> steps_to(
                    wires.0@,
                    wires.1@,
                    i,
                    j,
                ) <= u64::MAX,
            best is None ==> forall|i: int, j: int|
#![trigger crossing_at(wires.0@, wires.1@, i, j)]
                i < walk_a.position() ==> crossing_at(wires.0@, wires.1@, i, j) is None,
            best matches Some(d) ==> {
                &&& exists|i: int, j: int|
#![trigger crossing_at(wires.0@, wires.1@, i, j)]
                    crossing_at(wires.0@, wires.1@, i, j) is Some && steps_to(
                        wires.0@,
                        wires.1@,
                        i,
                        j,
                    ) == d
                &&& forall|i: int, j: int|
#![trigger crossing_at(wires.0@, wires.1@, i, j)]
                    i < walk_a.position() && crossing_at(wires.0@, wires.1@, i, j) is Some ==> d
                        <= steps_to(wires.0@, wires.1@, i, j)
            },
        ensures
            walk_a.position() == wires.0@.len(),
            best is None ==> forall|i: int, j: int|
#![trigger crossing_at(wires.0@, wires.1@, i, j)]
                i < wires.0@.len() ==> crossing_at(wires.0@, wires.1@, i, j) is None,
            best matches Some(d) ==> {
                &&& exists|i: int, j: int|
#![trigger crossing_at(wires.0@, wires.1@, i, j)]
                    crossing_at(wires.0@, wires.1@, i, j) is Some && steps_to(
                        wires.0@,
                        wires.1@,
                        i,
                        j,
                    ) == d
                &&& forall|i: int, j: int|
#![trigger crossing_at(wires.0@, wires.1@, i, j)]
                    i < wires.0@.len() && crossing_at(wires.0@, wires.1@, i, j) is Some ==> d
                        <= steps_to(wires.0@, wires.1@, i, j)
            },
        decreases wires.0@.len() - walk_a.position(),
    {
        let ghost a = walk_a.position();
        let (a_length, a_segment) = match walk_a.next() {
            Some(item) => item,
            None => {
                break ;
            },
        };
        let mut walk_b = SegmentSliceIterator::new(wire_b);
        loop
            invariant
                0 <= a < wires.0@.len(),
                wire_b@ == wires.1@,
                walk_b.well_formed(),
                walk_b.wire() == wires.1@,
                a_length == length_before(wires.0@, a),
                *a_segment == wires.0@[a],
                length_before(wires.1@, wires.1@.len() as int) <= u64::MAX,
                forall|i: int, j: int|
#![trigger crossing_at(wires.0@, wires.1@, i, j)]
                    crossing_at(wires.0@, wires.1@, i, j) is Some ==> steps_to(
                        wires.0@,
                        wires.1@,
                        i,
                        j,
                    ) <= u64::MAX,
                best is None ==> forall|i: int, j: int|
#![trigger crossing_at(wires.0@, wires.1@, i, j)]
                    (i < a || (i == a && j < walk_b.position())) ==> crossing_at(
                        wires.0@,
                        wires.1@,
                        i,
                        j,
                    ) is None,
                best matches Some(d) ==> {
                    &&& exists|i: int, j: int|
#![trigger crossing_at(wires.0@, wires.1@, i, j)]
                        crossing_at(wires.0@, wires.1@, i, j) is Some && steps_to(
                            wires.0@,
                            wires.1@,
                            i,
                            j,
                        ) == d
                    &&& forall|i: int, j: int|
#![trigger crossing_at(wires.0@, wires.1@, i, j)]
                        (i < a || (i == a && j < walk_b.position())) && crossing_at(
                            wires.0@,
                            wires.1@,
                            i,
                            j,
                        ) is Some ==> d <= steps_to(wires.0@, wires.1@, i, j)
                },
            ensures
                walk_b.position() == wires.1@.len(),
                best is None ==> forall|i: int, j: int|
#![trigger crossing_at(wires.0@, wires.1@, i, j)]
                    i <= a ==> crossing_at(wires.0@, wires.1@, i, j) is None,
                best matches Some(d) ==> {
                    &&& exists|i: int, j: int|
#![trigger crossing_at(wires.0@, wires.1@, i, j)]
                        crossing_at(wires.0@, wires.1@, i, j) is Some && steps_to(
                            wires.0@,
                            wires.1@,
                            i,
                            j,
                        ) == d
                    &&& forall|i: int, j: int|
#![trigger crossing_at(wires.0@, wires.1@, i, j)]
                        i <= a && crossing_at(wires.0@, wires.1@, i, j) is Some ==> d <= steps_to(
                            wires.0@,
                            wires.1@,
                            i,
                            j,
                        )
                },
            decreases wires.1@.len() - walk_b.position(),
        {
            let ghost b = walk_b.position();
            let (b_length, b_segment) = match walk_b.next() {
                Some(item) => item,
                None => {
                    break ;
                },
            };
            match b_segment.intersection_point(a_segment) {
                Some(point) => {
                    if !(point.x == 0 && point.y == 0) {
                        assert(crossing_at(wires.0@, wires.1@, a, b) == Some(point));
                        let a_pts = &a_segment.segment_ends.0;
                        let b_pts = &b_segment.segment_ends.0;
                        let d = a_length + b_length + point.distance_from(a_pts)
                            + point.distance_from(b_pts);
                        best = match best {
                            Some(known) => if known <= d {
                                Some(known)
                            } else {
                                Some(d)
                            },
                            None => Some(d),
                        };
                    }
                },
                None => {},
            }
        }
    }
    match best {
        Some(d) => d,
        None => {
            0
        },
    }
}

} // verus!
