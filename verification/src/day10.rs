//! The asteroid belt: from which asteroid the most others can be seen. An
//! asteroid hides every asteroid that lies behind it in the same direction.

use vstd::prelude::*;
use fnv::{FnvHashMap, FnvHashSet};
use crate::hashing::{map_get_mut, map_insert, set_insert, set_len};
use crate::text::{chars_of, lines, lines_of, texts_of};

verus! {

/// Whether `d` divides both `a` and `b`.
pub open spec fn is_common_divisor(a: int, b: int, d: int) -> bool {
    d > 0 && a % d == 0 && b % d == 0
}

/// Whether `g` is the greatest common divisor of `a` and `b`: the greatest
/// number that divides both, and 0 where both are 0.
pub open spec fn is_gcd(a: int, b: int, g: int) -> bool {
    if a == 0 && b == 0 {
        g == 0
    } else {
        &&& is_common_divisor(a, b, g)
        &&& forall|d: int| d > g ==> !#[trigger] is_common_divisor(a, b, d)
    }
}

/// The greatest common divisor of `a` and `b`.
pub open spec fn gcd_of(a: int, b: int) -> int {
    choose|g: int| is_gcd(a, b, g)
}

/// Two numbers have one greatest common divisor.
pub proof fn lemma_gcd_is_unique(a: int, b: int, g: int)
    requires
        is_gcd(a, b, g),
    ensures
        gcd_of(a, b) == g,
{
    let chosen = gcd_of(a, b);
}

/// `num::Integer::gcd` on `isize`: the greatest common divisor of the two
/// numbers, which is never negative, and 0 where both are 0. The least
/// `isize` is left out: its greatest common divisor with itself or with 0 is
/// no `isize`.
#[verifier::external_body]
fn gcd(a: isize, b: isize) -> (g: isize)
    requires
        a > isize::MIN,
        b > isize::MIN,
    ensures
        is_gcd(a as int, b as int, g as int),
{
    num::Integer::gcd(&a, &b)
}

/// A place in the belt, by row and column, or the way from one place to
/// another.
#[derive(Debug, Clone, Copy, PartialEq, Eq, Hash, PartialOrd, Ord, Structural)]
pub struct Pos(pub isize, pub isize);

/// A way in its lowest terms: both parts divided by their greatest common
/// divisor. Every place in one direction has the same way in lowest terms.
pub open spec fn reduced(way: (int, int)) -> (int, int) {
    (way.0 / gcd_of(way.0, way.1), way.1 / gcd_of(way.0, way.1))
}

impl Pos {
    /// The way from `self` to `other`.
    pub fn distance_to(&self, other: &Self) -> (way: Self)
        requires
            isize::MIN <= other.0 - self.0 <= isize::MAX,
            isize::MIN <= other.1 - self.1 <= isize::MAX,
        ensures
            way.0 == other.0 - self.0,
            way.1 == other.1 - self.1,
    {
        Self(other.0 - self.0, other.1 - self.1)
    }

    /// The way in its lowest terms.
    pub fn reduced_vector(&self) -> (way: Self)
        requires
            self.0 > isize::MIN,
            self.1 > isize::MIN,
            self.0 != 0 || self.1 != 0,
        ensures
            (way.0 as int, way.1 as int) == reduced((self.0 as int, self.1 as int)),
    {
        let gcd = gcd(self.0, self.1);
        proof {
            lemma_exact_quotient(self.0 as int, gcd as int);
            lemma_exact_quotient(self.1 as int, gcd as int);
        }
        Self(self.0 / gcd, self.1 / gcd)
    }
}

/// Where `g` divides `a`, the quotient is the same whichever way a division
/// rounds.
proof fn lemma_exact_quotient(a: int, g: int)
    requires
        g > 0,
        a % g == 0,
    ensures
        a >= 0 ==> (a / g) * g == a,
        a < 0 ==> -((-a) / g) == a / g,
{
    assert(a == (a / g) * g + a % g) by (nonlinear_arith)
        requires
            g > 0,
    ;
    if a < 0 {
        let q = a / g;
        assert(-a == (-q) * g) by (nonlinear_arith)
            requires
                a == q * g,
        ;
        assert(((-q) * g) / g == -q) by (nonlinear_arith)
            requires
                g > 0,
        ;
    }
}

/// What lies at a place of the belt.
#[derive(Debug, Clone, Copy, PartialEq, Eq, Hash, Structural)]
pub enum Tile {
    Empty,
    Asteroid,
}

impl Tile {
    /// The tile that a character of the map stands for.
    pub open spec fn of(value: char) -> Option<Tile> {
        if value == '.' {
            Some(Tile::Empty)
        } else if value == '#' {
            Some(Tile::Asteroid)
        } else {
            None
        }
    }

    /// The tile that a character of the map stands for: `.` for an empty
    /// place, `#` for an asteroid.
    pub fn from(value: char) -> (tile: Self)
        requires
            Tile::of(value) is Some,
        ensures
            Some(tile) == Tile::of(value),
    {
        if value == '.' {
            Self::Empty
        } else {
            Self::Asteroid
        }
    }
}

/// Whether there is an asteroid at `(row, col)` of the grid.
pub open spec fn asteroid_at(grid: Seq<Vec<Tile>>, row: int, col: int) -> bool {
    0 <= row < grid.len() && 0 <= col < grid[row]@.len() && grid[row]@[col] == Tile::Asteroid
}

/// The direction, as a way in lowest terms, in which the asteroid at
/// `(row, col)` is seen from `pos`.
pub open spec fn direction_to(pos: Pos, row: int, col: int) -> (isize, isize) {
    let way = reduced((row - pos.0, col - pos.1));
    (way.0 as isize, way.1 as isize)
}

/// Whether the place `(row, col)` comes before the place `(r, c)` when the
/// grid is read row by row.
pub open spec fn place_before(row: int, col: int, r: int, c: int) -> bool {
    row < r || (row == r && col < c)
}

/// The directions in which asteroids are seen from `pos`, counting the
/// places that come before `(r, c)` only.
pub open spec fn directions_before(pos: Pos, grid: Seq<Vec<Tile>>, r: int, c: int) -> Set<
    (isize, isize),
> {
    Set::new(
        |way: (isize, isize)|
            exists|row: int, col: int|
                #![trigger asteroid_at(grid, row, col)]
                asteroid_at(grid, row, col) && place_before(row, col, r, c) && !(row == pos.0
                    && col == pos.1) && way == direction_to(pos, row, col),
    )
}

/// The directions in which asteroids are seen from `pos`. The place `pos`
/// itself does not count.
pub open spec fn directions(pos: Pos, grid: Seq<Vec<Tile>>) -> Set<(isize, isize)> {
    directions_before(pos, grid, grid.len() as int, 0)
}

/// Whether the grid is small enough for its rows and columns to be counted
/// in an `isize`.
pub open spec fn fits(grid: Seq<Vec<Tile>>) -> bool {
    &&& grid.len() <= isize::MAX
    &&& forall|row: int| 0 <= row < grid.len() ==> (#[trigger] grid[row])@.len() <= isize::MAX
}

/// The number of asteroids that can be seen from `pos`: the number of
/// directions in which there is an asteroid.
pub fn count_seen_asteroids(pos: Pos, grid: &[Vec<Tile>]) -> (count: usize)
    requires
        fits(grid@),
        0 <= pos.0,
        0 <= pos.1,
    ensures
        directions(pos, grid@).finite(),
        count == directions(pos, grid@).len(),
{
    let mut seeing_set: FnvHashSet<(isize, isize)> = FnvHashSet::default();
    let mut row_index: usize = 0;
    while row_index < grid.len()
        invariant
            row_index <= grid@.len(),
            fits(grid@),
            0 <= pos.0,
            0 <= pos.1,
            seeing_set@ == directions_before(pos, grid@, row_index as int, 0),
            seeing_set@.finite(),
        decreases grid@.len() - row_index,
    {
        let row = &grid[row_index];
        let mut col_index: usize = 0;
        while col_index < row.len()
            invariant
                row_index < grid@.len(),
                col_index <= row@.len(),
                *row == grid@[row_index as int],
                fits(grid@),
                0 <= pos.0,
                0 <= pos.1,
                seeing_set@ == directions_before(pos, grid@, row_index as int, col_index as int),
                seeing_set@.finite(),
            decreases row@.len() - col_index,
        {
            let tile_pos = Pos(row_index as isize, col_index as isize);
            let is_asteroid = match row[col_index] {
                Tile::Asteroid => true,
                Tile::Empty => false,
            };
            if !(pos.0 == tile_pos.0 && pos.1 == tile_pos.1) && is_asteroid {
                let way = pos.distance_to(&tile_pos).reduced_vector();
                set_insert(&mut seeing_set, (way.0, way.1));
                assert(asteroid_at(grid@, row_index as int, col_index as int));
            }
            col_index += 1;
        }
        assert(seeing_set@ =~= directions_before(pos, grid@, row_index + 1, 0));
        row_index += 1;
    }
    set_len(&seeing_set)
}

/// An asteroid as the laser meets it: how many steps of its direction it
/// lies away, and its place.
pub type Hit = (usize, (isize, isize));

/// The asteroid at `(row, col)` as the laser at `pos` meets it.
pub open spec fn hit_at(pos: Pos, row: int, col: int) -> Hit {
    (gcd_of(row - pos.0, col - pos.1) as usize, (row as isize, col as isize))
}

/// The direction of the asteroid at `(row, col)` as a key of the map of the
/// laser.
pub open spec fn key_to(pos: Pos, row: int, col: int) -> (i64, i64) {
    (direction_to(pos, row, col).0 as i64, direction_to(pos, row, col).1 as i64)
}

/// Whether the asteroids of a list are in the order in which the laser takes
/// them from the end of the list: the nearest last.
pub open spec fn nearest_last(hits: Seq<Hit>) -> bool {
    forall|i: int, j: int| 0 <= i < j < hits.len() ==> hits[i].0 > hits[j].0
}

/// Whether `hit` is an asteroid that lies in the direction `key` from `pos`,
/// at a place before `(r, c)`.
pub open spec fn is_hit_of(
    pos: Pos,
    grid: Seq<Vec<Tile>>,
    r: int,
    c: int,
    key: (i64, i64),
    hit: Hit,
) -> bool {
    exists|row: int, col: int|
        #![trigger asteroid_at(grid, row, col)]
        asteroid_at(grid, row, col) && place_before(row, col, r, c) && !(row == pos.0 && col
            == pos.1) && key == key_to(pos, row, col) && hit == hit_at(pos, row, col)
}

/// Whether the map holds the asteroid at `(row, col)` in the list of its
/// direction, if there is one there, before `(r, c)` and not at `pos`.
pub open spec fn holds_hit(
    map: Map<(i64, i64), Vec<Hit>>,
    pos: Pos,
    grid: Seq<Vec<Tile>>,
    r: int,
    c: int,
    row: int,
    col: int,
) -> bool {
    asteroid_at(grid, row, col) && place_before(row, col, r, c) && !(row == pos.0 && col == pos.1)
        ==> map.contains_key(key_to(pos, row, col)) && map[key_to(pos, row, col)]@.contains(
        hit_at(pos, row, col),
    )
}

/// Whether the list that the map holds for a direction holds asteroids of
/// that direction only, the nearest last, and at least one.
pub open spec fn is_list_of(
    map: Map<(i64, i64), Vec<Hit>>,
    pos: Pos,
    grid: Seq<Vec<Tile>>,
    r: int,
    c: int,
    key: (i64, i64),
) -> bool {
    map.contains_key(key) ==> {
        &&& map[key]@.len() > 0
        &&& nearest_last(map[key]@)
        &&& forall|i: int|
            0 <= i < map[key]@.len() ==> is_hit_of(pos, grid, r, c, key, #[trigger] map[key]@[i])
    }
}

/// Whether the map holds, for every direction, the asteroids that lie in
/// that direction from `pos` and before the place `(r, c)`, the nearest
/// last, and nothing else.
pub open spec fn is_hit_map(
    map: Map<(i64, i64), Vec<Hit>>,
    pos: Pos,
    grid: Seq<Vec<Tile>>,
    r: int,
    c: int,
) -> bool {
    &&& forall|row: int, col: int| #[trigger] holds_hit(map, pos, grid, r, c, row, col)
    &&& forall|key: (i64, i64)| #[trigger] is_list_of(map, pos, grid, r, c, key)
}

/// The greatest number from 1 to `n` that divides both `a` and `b`.
pub open spec fn greatest_divisor_upto(a: int, b: int, n: int) -> int
    decreases n,
{
    if n <= 1 {
        1
    } else if is_common_divisor(a, b, n) {
        n
    } else {
        greatest_divisor_upto(a, b, n - 1)
    }
}

/// The greatest common divisor up to `n` is one, and no common divisor up to
/// `n` is greater.
proof fn lemma_greatest_divisor_upto(a: int, b: int, n: int)
    requires
        n >= 1,
    ensures
        is_common_divisor(a, b, greatest_divisor_upto(a, b, n)),
        forall|d: int|
            greatest_divisor_upto(a, b, n) < d <= n ==> !#[trigger] is_common_divisor(a, b, d),
    decreases n,
{
    if n > 1 && !is_common_divisor(a, b, n) {
        lemma_greatest_divisor_upto(a, b, n - 1);
    }
}

/// Any two numbers have a greatest common divisor.
pub proof fn lemma_gcd_exists(a: int, b: int)
    ensures
        is_gcd(a, b, gcd_of(a, b)),
{
    if a == 0 && b == 0 {
        assert(is_gcd(a, b, 0));
    } else {
        let bound = if a != 0 {
            if a > 0 {
                a
            } else {
                -a
            }
        } else if b > 0 {
            b
        } else {
            -b
        };
        lemma_greatest_divisor_upto(a, b, bound);
        let g = greatest_divisor_upto(a, b, bound);
        assert forall|d: int| d > g implies !#[trigger] is_common_divisor(a, b, d) by {
            if is_common_divisor(a, b, d) {
                if a != 0 {
                    lemma_divisor_is_bounded(a, d);
                } else {
                    lemma_divisor_is_bounded(b, d);
                }
            }
        }
        assert(is_gcd(a, b, g));
    }
}

/// A common divisor of two numbers, of which one is not 0, is no greater
/// than that one.
proof fn lemma_divisor_is_bounded(a: int, d: int)
    requires
        d > 0,
        a % d == 0,
        a != 0,
    ensures
        d <= a || d <= -a,
{
    let q = a / d;
    assert(a == q * d + a % d) by (nonlinear_arith)
        requires
            d > 0,
            q == a / d,
    ;
    assert(q != 0) by (nonlinear_arith)
        requires
            a == q * d + a % d,
            a % d == 0,
            a != 0,
    ;
    if q > 0 {
        assert(q * d >= d) by (nonlinear_arith)
            requires
                q >= 1,
                d > 0,
        ;
    } else {
        assert(q * d <= -d) by (nonlinear_arith)
            requires
                q <= -1,
                d > 0,
        ;
    }
}

/// The greatest common divisor of two numbers that are not both 0 is
/// greater than 0 and no greater than the greater of the two.
proof fn lemma_gcd_is_bounded(a: int, b: int, bound: int)
    requires
        a != 0 || b != 0,
        -bound <= a <= bound,
        -bound <= b <= bound,
    ensures
        0 < gcd_of(a, b) <= bound,
        a % gcd_of(a, b) == 0,
        b % gcd_of(a, b) == 0,
{
    let g = gcd_of(a, b);
    lemma_gcd_exists(a, b);
    if a != 0 {
        lemma_divisor_is_bounded(a, g);
    } else {
        lemma_divisor_is_bounded(b, g);
    }
}

/// A way is its way in lowest terms as many times as its greatest common
/// divisor says.
proof fn lemma_way_is_multiple(a: int, b: int)
    requires
        a != 0 || b != 0,
    ensures
        a == reduced((a, b)).0 * gcd_of(a, b),
        b == reduced((a, b)).1 * gcd_of(a, b),
        -a <= reduced((a, b)).0 <= a || a <= reduced((a, b)).0 <= -a,
        -b <= reduced((a, b)).1 <= b || b <= reduced((a, b)).1 <= -b,
{
    let g = gcd_of(a, b);
    lemma_gcd_exists(a, b);
    assert(a == (a / g) * g + a % g && (-a <= a / g <= a || a <= a / g <= -a))
        by (nonlinear_arith)
        requires
            g > 0,
    ;
    assert(b == (b / g) * g + b % g && (-b <= b / g <= b || b <= b / g <= -b))
        by (nonlinear_arith)
        requires
            g > 0,
    ;
}

/// Two places in the same direction and at the same number of steps from
/// `pos` are one place.
proof fn lemma_same_direction_and_steps(pos: Pos, r2: int, c2: int, row: int, col: int)
    requires
        0 <= pos.0,
        0 <= pos.1,
        0 <= r2 <= isize::MAX,
        0 <= c2 <= isize::MAX,
        0 <= row <= isize::MAX,
        0 <= col <= isize::MAX,
        !(r2 == pos.0 && c2 == pos.1),
        !(row == pos.0 && col == pos.1),
        key_to(pos, r2, c2) == key_to(pos, row, col),
        hit_at(pos, r2, c2).0 == hit_at(pos, row, col).0,
    ensures
        r2 == row,
        c2 == col,
{
    let bound = isize::MAX as int;
    lemma_gcd_is_bounded(r2 - pos.0, c2 - pos.1, bound);
    lemma_gcd_is_bounded(row - pos.0, col - pos.1, bound);
    lemma_way_is_multiple(r2 - pos.0, c2 - pos.1);
    lemma_way_is_multiple(row - pos.0, col - pos.1);
    let g2 = gcd_of(r2 - pos.0, c2 - pos.1);
    let g = gcd_of(row - pos.0, col - pos.1);
    let way2 = reduced((r2 - pos.0, c2 - pos.1));
    let way = reduced((row - pos.0, col - pos.1));
}

/// Puts an asteroid into a list that has the nearest last, at its place.
fn insert_hit(hits: &mut Vec<Hit>, hit: Hit)
    requires
        nearest_last(old(hits)@),
        forall|i: int| 0 <= i < old(hits)@.len() ==> (#[trigger] old(hits)@[i]).0 != hit.0,
    ensures
        nearest_last(final(hits)@),
        final(hits)@.len() == old(hits)@.len() + 1,
        final(hits)@.contains(hit),
        forall|i: int| 0 <= i < old(hits)@.len() ==> final(hits)@.contains(#[trigger] old(hits)@[i]),
        forall|i: int|
            0 <= i < final(hits)@.len() ==> (#[trigger] final(hits)@[i]) == hit || old(
                hits,
            )@.contains(final(hits)@[i]),
{
    let mut at: usize = 0;
    while at < hits.len() && hits[at].0 > hit.0
        invariant
            at <= hits@.len(),
            hits@ == old(hits)@,
            forall|i: int| 0 <= i < at ==> (#[trigger] hits@[i]).0 > hit.0,
        decreases hits@.len() - at,
    {
        at += 1;
    }
    let ghost before = hits@;
    hits.insert(at, hit);
    proof {
        assert(hits@[at as int] == hit);
        assert forall|i: int| 0 <= i < before.len() implies hits@.contains(
            #[trigger] before[i],
        ) by {
            if i < at {
                assert(hits@[i] == before[i]);
            } else {
                assert(hits@[i + 1] == before[i]);
            }
        }
        assert forall|i: int, j: int| 0 <= i < j < hits@.len() implies hits@[i].0 > hits@[j].0 by {
            let a = if i < at {
                before[i]
            } else if i == at {
                hit
            } else {
                before[i - 1]
            };
            let b = if j < at {
                before[j]
            } else if j == at {
                hit
            } else {
                before[j - 1]
            };
        }
    }
}

/// A map that holds the asteroids before a place holds the asteroids before
/// the next place too, once the asteroid at the place, if there is one, was
/// put into the list of its direction.
proof fn lemma_hit_map_grows(
    before: Map<(i64, i64), Vec<Hit>>,
    after: Map<(i64, i64), Vec<Hit>>,
    pos: Pos,
    grid: Seq<Vec<Tile>>,
    row: int,
    col: int,
)
    requires
        0 <= row < grid.len(),
        0 <= col < grid[row]@.len(),
        is_hit_map(before, pos, grid, row, col),
        asteroid_at(grid, row, col),
        !(row == pos.0 && col == pos.1),
        after.dom() == before.dom().insert(key_to(pos, row, col)),
        forall|key: (i64, i64)|
            before.contains_key(key) && key != key_to(pos, row, col) ==> #[trigger] after[key]
                == before[key],
        after[key_to(pos, row, col)]@.len() > 0,
        after[key_to(pos, row, col)]@.contains(hit_at(pos, row, col)),
        nearest_last(after[key_to(pos, row, col)]@),
        before.contains_key(key_to(pos, row, col)) ==> forall|i: int|
            0 <= i < before[key_to(pos, row, col)]@.len() ==> after[key_to(
                pos,
                row,
                col,
            )]@.contains(#[trigger] before[key_to(pos, row, col)]@[i]),
        forall|i: int|
            0 <= i < after[key_to(pos, row, col)]@.len() ==> (#[trigger] after[key_to(
                pos,
                row,
                col,
            )]@[i]) == hit_at(pos, row, col) || (before.contains_key(key_to(pos, row, col))
                && before[key_to(pos, row, col)]@.contains(after[key_to(pos, row, col)]@[i])),
    ensures
        is_hit_map(after, pos, grid, row, col + 1),
{
    let new_key = key_to(pos, row, col);
    let new_hit = hit_at(pos, row, col);
    assert forall|r2: int, c2: int| #[trigger]
        holds_hit(after, pos, grid, row, col + 1, r2, c2) by {
        if asteroid_at(grid, r2, c2) && place_before(r2, c2, row, col + 1) && !(r2 == pos.0 && c2
            == pos.1) {
            if !(r2 == row && c2 == col) {
                assert(holds_hit(before, pos, grid, row, col, r2, c2));
            }
        }
    }
    assert forall|key: (i64, i64)| #[trigger]
        is_list_of(after, pos, grid, row, col + 1, key) by {
        if after.contains_key(key) {
            assert(is_list_of(before, pos, grid, row, col, key));
            assert forall|i: int| 0 <= i < after[key]@.len() implies is_hit_of(
                pos,
                grid,
                row,
                col + 1,
                key,
                #[trigger] after[key]@[i],
            ) by {
            }
        }
    }
}

/// A map that holds the asteroids before a place at which there is none to
/// hold, holds the asteroids before the next place.
proof fn lemma_hit_map_skips(
    map: Map<(i64, i64), Vec<Hit>>,
    pos: Pos,
    grid: Seq<Vec<Tile>>,
    row: int,
    col: int,
)
    requires
        0 <= row < grid.len(),
        0 <= col < grid[row]@.len(),
        is_hit_map(map, pos, grid, row, col),
        !asteroid_at(grid, row, col) || (row == pos.0 && col == pos.1),
    ensures
        is_hit_map(map, pos, grid, row, col + 1),
{
    assert forall|r2: int, c2: int| #[trigger]
        holds_hit(map, pos, grid, row, col + 1, r2, c2) by {
        if asteroid_at(grid, r2, c2) && place_before(r2, c2, row, col + 1) && !(r2 == pos.0 && c2
            == pos.1) {
            assert(holds_hit(map, pos, grid, row, col, r2, c2));
        }
    }
    assert forall|key: (i64, i64)| #[trigger] is_list_of(map, pos, grid, row, col + 1, key) by {
        assert(is_list_of(map, pos, grid, row, col, key));
    }
}

/// A map that holds the asteroids of the rows before a row and of the whole
/// row holds the asteroids before the next row.
proof fn lemma_hit_map_next_row(
    map: Map<(i64, i64), Vec<Hit>>,
    pos: Pos,
    grid: Seq<Vec<Tile>>,
    row: int,
    width: int,
)
    requires
        0 <= row < grid.len(),
        width == grid[row]@.len(),
        is_hit_map(map, pos, grid, row, width),
    ensures
        is_hit_map(map, pos, grid, row + 1, 0),
{
    assert forall|r2: int, c2: int| #[trigger]
        holds_hit(map, pos, grid, row + 1, 0, r2, c2) by {
        if asteroid_at(grid, r2, c2) && place_before(r2, c2, row + 1, 0) && !(r2 == pos.0 && c2
            == pos.1) {
            assert(holds_hit(map, pos, grid, row, width, r2, c2));
        }
    }
    assert forall|key: (i64, i64)| #[trigger] is_list_of(map, pos, grid, row + 1, 0, key) by {
        assert(is_list_of(map, pos, grid, row, width, key));
    }
}

/// For every direction in which asteroids lie from `pos`, those asteroids
/// with the number of steps of the direction at which each lies, the nearest
/// last. The place `pos` itself does not count.
pub fn make_laser_hit_map(pos: Pos, grid: &[Vec<Tile>]) -> (result: FnvHashMap<(i64, i64), Vec<Hit>>)
    requires
        fits(grid@),
        0 <= pos.0,
        0 <= pos.1,
    ensures
        is_hit_map(result@, pos, grid@, grid@.len() as int, 0),
{
    let mut result: FnvHashMap<(i64, i64), Vec<Hit>> = FnvHashMap::default();
    let mut row_index: usize = 0;
    while row_index < grid.len()
        invariant
            row_index <= grid@.len(),
            fits(grid@),
            0 <= pos.0,
            0 <= pos.1,
            is_hit_map(result@, pos, grid@, row_index as int, 0),
        decreases grid@.len() - row_index,
    {
        let row = &grid[row_index];
        let mut col_index: usize = 0;
        while col_index < row.len()
            invariant
                row_index < grid@.len(),
                col_index <= row@.len(),
                *row == grid@[row_index as int],
                fits(grid@),
                0 <= pos.0,
                0 <= pos.1,
                is_hit_map(result@, pos, grid@, row_index as int, col_index as int),
            decreases row@.len() - col_index,
        {
            let ghost before = result@;
            let tile_pos = Pos(row_index as isize, col_index as isize);
            let is_asteroid = match row[col_index] {
                Tile::Asteroid => true,
                Tile::Empty => false,
            };
            if !(pos.0 == tile_pos.0 && pos.1 == tile_pos.1) && is_asteroid {
                let distance = pos.distance_to(&tile_pos);
                let gcd = gcd(distance.0, distance.1);
                proof {
                    lemma_exact_quotient(distance.0 as int, gcd as int);
                    lemma_exact_quotient(distance.1 as int, gcd as int);
                }
                let reduced_dist = Pos(distance.0 / gcd, distance.1 / gcd);
                let key = (reduced_dist.0 as i64, reduced_dist.1 as i64);
                let hit: Hit = (gcd as usize, (tile_pos.0, tile_pos.1));
                assert(is_list_of(before, pos, grid@, row_index as int, col_index as int, key));
                match map_get_mut(&mut result, key) {
                    Some(heap) => {
                        proof {
                            assert forall|i: int| 0 <= i < heap@.len() implies (
                            #[trigger] heap@[i]).0 != hit.0 by {
                                let (r2, c2) = choose|r2: int, c2: int|
                                    #![trigger asteroid_at(grid@, r2, c2)]
                                    asteroid_at(grid@, r2, c2) && place_before(
                                        r2,
                                        c2,
                                        row_index as int,
                                        col_index as int,
                                    ) && !(r2 == pos.0 && c2 == pos.1) && key == key_to(
                                        pos,
                                        r2,
                                        c2,
                                    ) && before[key]@[i] == hit_at(pos, r2, c2);
                                if heap@[i].0 == hit.0 {
                                    lemma_same_direction_and_steps(
                                        pos,
                                        r2,
                                        c2,
                                        row_index as int,
                                        col_index as int,
                                    );
                                }
                            }
                        }
                        insert_hit(heap, hit);
                    },
                    None => {
                        let mut heap: Vec<Hit> = Vec::new();
                        heap.push(hit);
                        assert(heap@[0] == hit);
                        map_insert(&mut result, key, heap);
                    },
                }
                proof {
                    lemma_hit_map_grows(
                        before,
                        result@,
                        pos,
                        grid@,
                        row_index as int,
                        col_index as int,
                    );
                }
            } else {
                proof {
                    lemma_hit_map_skips(result@, pos, grid@, row_index as int, col_index as int);
                }
            }
            col_index += 1;
        }
        proof {
            lemma_hit_map_next_row(result@, pos, grid@, row_index as int, row@.len() as int);
        }
        row_index += 1;
    }
    result
}

/// Whether every character of every line stands for a tile.
pub open spec fn is_map(rows: Seq<Seq<char>>) -> bool {
    forall|row: int, col: int|
        0 <= row < rows.len() && 0 <= col < rows[row].len() ==> Tile::of(
            #[trigger] rows[row][col],
        ) is Some
}

/// Reads the map of the belt: a row on each line, `.` for an empty place and
/// `#` for an asteroid.
pub fn parse(input: &str) -> (grid: Vec<Vec<Tile>>)
    requires
        is_map(lines_of(input@)),
    ensures
        grid@.len() == lines_of(input@).len(),
        forall|row: int|
            0 <= row < grid@.len() ==> (#[trigger] grid@[row])@.len() == lines_of(
                input@,
            )[row].len(),
        forall|row: int, col: int|
            0 <= row < grid@.len() && 0 <= col < grid@[row]@.len() ==> Some(
                #[trigger] grid@[row]@[col],
            ) == Tile::of(lines_of(input@)[row][col]),
{
    let text = chars_of(input);
    let rows = lines(text.as_slice());
    let mut grid: Vec<Vec<Tile>> = Vec::new();
    let mut r: usize = 0;
    while r < rows.len()
        invariant
            r <= rows@.len(),
            texts_of(rows@) == lines_of(input@),
            is_map(lines_of(input@)),
            grid@.len() == r,
            forall|row: int|
                0 <= row < r ==> (#[trigger] grid@[row])@.len() == lines_of(input@)[row].len(),
            forall|row: int, col: int|
                0 <= row < r && 0 <= col < grid@[row]@.len() ==> Some(
                    #[trigger] grid@[row]@[col],
                ) == Tile::of(lines_of(input@)[row][col]),
        decreases rows@.len() - r,
    {
        let line = &rows[r];
        let mut tiles: Vec<Tile> = Vec::new();
        let mut c: usize = 0;
        while c < line.len()
            invariant
                c <= line@.len(),
                r < lines_of(input@).len(),
                line@ == lines_of(input@)[r as int],
                is_map(lines_of(input@)),
                tiles@.len() == c,
                forall|col: int|
                    0 <= col < c ==> Some(#[trigger] tiles@[col]) == Tile::of(line@[col]),
            decreases line@.len() - c,
        {
            tiles.push(Tile::from(line[c]));
            c += 1;
        }
        grid.push(tiles);
        r += 1;
    }
    grid
}

/// The number of asteroids that can be seen from the asteroid at
/// `(row, col)`.
pub open spec fn seen_from(grid: Seq<Vec<Tile>>, row: int, col: int) -> nat {
    directions(Pos(row as isize, col as isize), grid).len()
}

/// The greatest number of other asteroids that can be seen from one
/// asteroid of the belt.
pub fn part1(grid: &[Vec<Tile>]) -> (most: usize)
    requires
        fits(grid@),
        exists|row: int, col: int| asteroid_at(grid@, row, col),
    ensures
        exists|row: int, col: int|
            #![trigger asteroid_at(grid@, row, col)]
            asteroid_at(grid@, row, col) && most == seen_from(grid@, row, col),
        forall|row: int, col: int|
            #![trigger asteroid_at(grid@, row, col)]
            asteroid_at(grid@, row, col) ==> seen_from(grid@, row, col) <= most,
{
    let mut best: Option<usize> = None;
    let mut row_index: usize = 0;
    while row_index < grid.len()
        invariant
            row_index <= grid@.len(),
            fits(grid@),
            best is None ==> forall|row: int, col: int|
                #![trigger asteroid_at(grid@, row, col)]
                row < row_index ==> !asteroid_at(grid@, row, col),
            best matches Some(most) ==> {
                &&& exists|row: int, col: int|
                    #![trigger asteroid_at(grid@, row, col)]
                    asteroid_at(grid@, row, col) && most == seen_from(grid@, row, col)
                &&& forall|row: int, col: int|
                    #![trigger asteroid_at(grid@, row, col)]
                    row < row_index && asteroid_at(grid@, row, col) ==> seen_from(grid@, row, col)
                        <= most
            },
        decreases grid@.len() - row_index,
    {
        let row = &grid[row_index];
        let mut col_index: usize = 0;
        while col_index < row.len()
            invariant
                row_index < grid@.len(),
                col_index <= row@.len(),
                *row == grid@[row_index as int],
                fits(grid@),
                best is None ==> forall|row: int, col: int|
                    #![trigger asteroid_at(grid@, row, col)]
                    place_before(row, col, row_index as int, col_index as int) ==> !asteroid_at(
                        grid@,
                        row,
                        col,
                    ),
                best matches Some(most) ==> {
                    &&& exists|row: int, col: int|
                        #![trigger asteroid_at(grid@, row, col)]
                        asteroid_at(grid@, row, col) && most == seen_from(grid@, row, col)
                    &&& forall|row: int, col: int|
                        #![trigger asteroid_at(grid@, row, col)]
                        place_before(row, col, row_index as int, col_index as int) && asteroid_at(
                            grid@,
                            row,
                            col,
                        ) ==> seen_from(grid@, row, col) <= most
                },
            decreases row@.len() - col_index,
        {
            let is_asteroid = match row[col_index] {
                Tile::Asteroid => true,
                Tile::Empty => false,
            };
            if is_asteroid {
                assert(asteroid_at(grid@, row_index as int, col_index as int));
                let seen = count_seen_asteroids(
                    Pos(row_index as isize, col_index as isize),
                    grid,
                );
                best = match best {
                    Some(most) => if most >= seen {
                        Some(most)
                    } else {
                        Some(seen)
                    },
                    None => Some(seen),
                };
            }
            col_index += 1;
        }
        row_index += 1;
    }
    match best {
        Some(most) => most,
        None => {
            0
        },
    }
}

} // verus!
