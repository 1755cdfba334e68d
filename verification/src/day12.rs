//! Moons that pull at each other: every moon has a place and a velocity,
//! and in every step of time each pair of moons changes each other's
//! velocity by one on every axis on which their places differ.

use vstd::prelude::*;
use crate::number::{number_of, parse_i64, NumberError};
use crate::text::{
    begins_with, chars_of, lines, lines_of, split, split_on, strip_prefix, texts_of, trim,
    trim_end_matches, trim_start_matches, trimmed, without_leading, without_trailing,
};

verus! {

/// The absolute value of an integer.
pub open spec fn magnitude(v: int) -> int {
    if v < 0 {
        -v
    } else {
        v
    }
}

/// The absolute value of a coordinate.
fn coordinate_magnitude(v: i64) -> (m: u64)
    ensures
        m == magnitude(v as int),
{
    if v < 0 {
        (-(v as i128)) as u64
    } else {
        v as u64
    }
}

/// A place or a velocity in space.
#[derive(Debug, Clone, Copy, PartialEq, Eq, Hash, Structural)]
pub struct Vector3 {
    pub x: i64,
    pub y: i64,
    pub z: i64,
}

impl Vector3 {
    /// The sum of the absolute values of the three coordinates.
    pub open spec fn spec_distance(&self) -> int {
        magnitude(self.x as int) + magnitude(self.y as int) + magnitude(self.z as int)
    }

    /// Whether the sum of the two vectors is a vector.
    pub open spec fn can_add(&self, rhs: Vector3) -> bool {
        &&& i64::MIN <= self.x + rhs.x <= i64::MAX
        &&& i64::MIN <= self.y + rhs.y <= i64::MAX
        &&& i64::MIN <= self.z + rhs.z <= i64::MAX
    }

    /// The sum of the two vectors.
    pub open spec fn plus(&self, rhs: Vector3) -> Vector3 {
        Vector3 { x: (self.x + rhs.x) as i64, y: (self.y + rhs.y) as i64, z: (self.z + rhs.z) as i64 }
    }

    /// The distance from the origin, along the axes.
    pub fn cartesian_distance_from_origin(&self) -> (d: u64)
        requires
            self.spec_distance() <= u64::MAX,
        ensures
            d == self.spec_distance(),
    {
        coordinate_magnitude(self.x) + coordinate_magnitude(self.y) + coordinate_magnitude(self.z)
    }

    pub fn new(x: i64, y: i64, z: i64) -> (v: Self)
        ensures
            v == (Vector3 { x, y, z }),
    {
        Self { x, y, z }
    }
}

impl Default for Vector3 {
    /// The origin.
    fn default() -> (v: Self)
        ensures
            v == (Vector3 { x: 0, y: 0, z: 0 }),
    {
        Self { x: 0, y: 0, z: 0 }
    }
}

impl core::ops::Add for Vector3 {
    type Output = Vector3;

    /// The sum of the two vectors, coordinate by coordinate.
    fn add(self, rhs: Self) -> (sum: Vector3) {
        Vector3 { x: self.x + rhs.x, y: self.y + rhs.y, z: self.z + rhs.z }
    }
}

impl vstd::std_specs::ops::AddSpecImpl for Vector3 {
    open spec fn obeys_add_spec() -> bool {
        true
    }

    open spec fn add_req(self, rhs: Vector3) -> bool {
        self.can_add(rhs)
    }

    open spec fn add_spec(self, rhs: Vector3) -> Vector3 {
        self.plus(rhs)
    }
}

/// The change of velocity that something at `other` causes on something at
/// `own`, on one axis: one towards the other, nothing where they are level.
pub open spec fn toward(own: int, other: int) -> int {
    if own > other {
        -1
    } else if own < other {
        1
    } else {
        0
    }
}

/// A moon.
#[derive(Debug, Clone, Copy, PartialEq, Eq, Hash, Structural)]
pub struct Planet {
    pub position: Vector3,
    pub velocity: Vector3,
}

impl Planet {
    /// The energy of the moon: its distance from the origin times its speed,
    /// both along the axes.
    pub open spec fn spec_total_energy(&self) -> int {
        self.position.spec_distance() * self.velocity.spec_distance()
    }

    /// Whether the velocities of both moons can change by one either way.
    pub open spec fn can_pull(&self, other: &Planet) -> bool {
        &&& i64::MIN < self.velocity.x < i64::MAX
        &&& i64::MIN < self.velocity.y < i64::MAX
        &&& i64::MIN < self.velocity.z < i64::MAX
        &&& i64::MIN < other.velocity.x < i64::MAX
        &&& i64::MIN < other.velocity.y < i64::MAX
        &&& i64::MIN < other.velocity.z < i64::MAX
    }

    /// The two moons pull at each other along the first axis.
    pub fn speed_influence_x(&mut self, other: &mut Self)
        requires
            i64::MIN < old(self).velocity.x < i64::MAX,
            i64::MIN < old(other).velocity.x < i64::MAX,
        ensures
            *final(self) == (Planet {
                velocity: Vector3 {
                    x: (old(self).velocity.x + toward(
                        old(self).position.x as int,
                        old(other).position.x as int,
                    )) as i64,
                    ..old(self).velocity
                },
                ..*old(self)
            }),
            *final(other) == (Planet {
                velocity: Vector3 {
                    x: (old(other).velocity.x + toward(
                        old(other).position.x as int,
                        old(self).position.x as int,
                    )) as i64,
                    ..old(other).velocity
                },
                ..*old(other)
            }),
    {
        let to_add: i64 = if self.position.x > other.position.x {
            -1
        } else if self.position.x < other.position.x {
            1
        } else {
            return ;
        };

        self.velocity.x += to_add;
        other.velocity.x -= to_add;
    }

    /// The two moons pull at each other along the second axis.
    pub fn speed_influence_y(&mut self, other: &mut Self)
        requires
            i64::MIN < old(self).velocity.y < i64::MAX,
            i64::MIN < old(other).velocity.y < i64::MAX,
        ensures
            *final(self) == (Planet {
                velocity: Vector3 {
                    y: (old(self).velocity.y + toward(
                        old(self).position.y as int,
                        old(other).position.y as int,
                    )) as i64,
                    ..old(self).velocity
                },
                ..*old(self)
            }),
            *final(other) == (Planet {
                velocity: Vector3 {
                    y: (old(other).velocity.y + toward(
                        old(other).position.y as int,
                        old(self).position.y as int,
                    )) as i64,
                    ..old(other).velocity
                },
                ..*old(other)
            }),
    {
        let to_add: i64 = if self.position.y > other.position.y {
            -1
        } else if self.position.y < other.position.y {
            1
        } else {
            return ;
        };

        self.velocity.y += to_add;
        other.velocity.y -= to_add;
    }

    /// The two moons pull at each other along the third axis.
    pub fn speed_influence_z(&mut self, other: &mut Self)
        requires
            i64::MIN < old(self).velocity.z < i64::MAX,
            i64::MIN < old(other).velocity.z < i64::MAX,
        ensures
            *final(self) == (Planet {
                velocity: Vector3 {
                    z: (old(self).velocity.z + toward(
                        old(self).position.z as int,
                        old(other).position.z as int,
                    )) as i64,
                    ..old(self).velocity
                },
                ..*old(self)
            }),
            *final(other) == (Planet {
                velocity: Vector3 {
                    z: (old(other).velocity.z + toward(
                        old(other).position.z as int,
                        old(self).position.z as int,
                    )) as i64,
                    ..old(other).velocity
                },
                ..*old(other)
            }),
    {
        let to_add: i64 = if self.position.z > other.position.z {
            -1
        } else if self.position.z < other.position.z {
            1
        } else {
            return ;
        };

        self.velocity.z += to_add;
        other.velocity.z -= to_add;
    }

    /// The energy of the moon.
    pub fn total_energy(&self) -> (energy: u64)
        requires
            self.position.spec_distance() <= u64::MAX,
            self.velocity.spec_distance() <= u64::MAX,
            self.spec_total_energy() <= u64::MAX,
        ensures
            energy == self.spec_total_energy(),
    {
        let potential = self.position.cartesian_distance_from_origin();
        let kinetic = self.velocity.cartesian_distance_from_origin();
        potential * kinetic
    }

    /// The velocity of `own` after `other` has pulled at it once.
    pub open spec fn pulled_by(own: Planet, other: Planet) -> Planet {
        Planet {
            position: own.position,
            velocity: Vector3 {
                x: (own.velocity.x + toward(own.position.x as int, other.position.x as int)) as i64,
                y: (own.velocity.y + toward(own.position.y as int, other.position.y as int)) as i64,
                z: (own.velocity.z + toward(own.position.z as int, other.position.z as int)) as i64,
            },
        }
    }

    /// The two moons pull at each other: on every axis on which their places
    /// differ, the velocity of each changes by one towards the other.
    pub fn apply_speed_influence(&mut self, other: &mut Self)
        requires
            old(self).can_pull(&*old(other)),
        ensures
            *final(self) == Planet::pulled_by(*old(self), *old(other)),
            *final(other) == Planet::pulled_by(*old(other), *old(self)),
    {
        self.speed_influence_x(other);
        self.speed_influence_y(other);
        self.speed_influence_z(other);
    }

    /// The moon moves by its velocity.
    pub fn apply_velocity(&mut self)
        requires
            old(self).position.can_add(old(self).velocity),
        ensures
            *final(self) == (Planet {
                position: old(self).position.plus(old(self).velocity),
                ..*old(self)
            }),
    {
        let velocity = self.velocity;
        self.position = self.position + velocity;
    }
}

impl From<Vector3> for Planet {
    /// A moon at rest at the given place.
    fn from(value: Vector3) -> (planet: Self) {
        Self { position: value, velocity: Vector3::default() }
    }
}

impl vstd::std_specs::convert::FromSpecImpl<Vector3> for Planet {
    open spec fn obeys_from_spec() -> bool {
        true
    }

    open spec fn from_spec(value: Vector3) -> Self {
        Planet { position: value, velocity: Vector3 { x: 0, y: 0, z: 0 } }
    }
}

/// Why a text describes no vector.
#[derive(Debug, Clone, Copy, PartialEq, Eq)]
pub enum VectorError {
    /// The text does not have three parts with commas between them.
    NotThreeParts,
    /// A part does not begin with the name of its coordinate and `=`.
    MissingName(char),
    /// What follows the `=` is no number.
    BadNumber(NumberError),
}

/// The coordinate that a part such as ` y=-10` stands for: after white space,
/// the name of the coordinate and `=`, then a number, with white space round
/// it.
pub open spec fn coordinate_of(field: Seq<char>, name: char) -> Result<int, VectorError> {
    let part = trimmed(field);
    if !begins_with(part, seq![name, '=']) {
        Err(VectorError::MissingName(name))
    } else {
        match number_of(
            trimmed(part.subrange(2, part.len() as int)),
            i64::MIN as int,
            i64::MAX as int,
        ) {
            Err(error) => Err(VectorError::BadNumber(error)),
            Ok(v) => Ok(v),
        }
    }
}

/// The vector that a text such as `<x=-1, y=0, z=2>` stands for. The
/// coordinates are read in their order.
pub open spec fn vector_of(s: Seq<char>) -> Result<Vector3, VectorError> {
    let parts = split_on(without_trailing(without_leading(s, '<'), '>'), ',');
    if parts.len() != 3 {
        Err(VectorError::NotThreeParts)
    } else {
        match coordinate_of(parts[0], 'x') {
            Err(error) => Err(error),
            Ok(x) => match coordinate_of(parts[1], 'y') {
                Err(error) => Err(error),
                Ok(y) => match coordinate_of(parts[2], 'z') {
                    Err(error) => Err(error),
                    Ok(z) => Ok(Vector3 { x: x as i64, y: y as i64, z: z as i64 }),
                },
            },
        }
    }
}

/// Reads one coordinate.
fn parse_coordinate(field: &[char], name: char) -> (r: Result<i64, VectorError>)
    ensures
        match coordinate_of(field@, name) {
            Ok(v) => r == Ok::<i64, VectorError>(v as i64) && v == v as i64,
            Err(error) => r == Err::<i64, VectorError>(error),
        },
{
    let part = trim(field);
    let mut prefix: Vec<char> = Vec::new();
    prefix.push(name);
    prefix.push('=');
    assert(prefix@ =~= seq![name, '=']);
    let rest = match strip_prefix(part.as_slice(), prefix.as_slice()) {
        Some(rest) => rest,
        None => {
            return Err(VectorError::MissingName(name));
        },
    };
    let number = trim(rest.as_slice());
    match parse_i64(number.as_slice()) {
        Ok(v) => Ok(v),
        Err(error) => Err(VectorError::BadNumber(error)),
    }
}

impl Vector3 {
    /// Reads a vector from a text such as `<x=-1, y=0, z=2>`.
    pub fn parse(s: &[char]) -> (r: Result<Self, VectorError>)
        ensures
            r == vector_of(s@),
    {
        let inner = trim_start_matches(s, '<');
        let inner = trim_end_matches(inner.as_slice(), '>');
        let parts = split(inner.as_slice(), ',');
        if parts.len() != 3 {
            return Err(VectorError::NotThreeParts);
        }
        let x = parse_coordinate(parts[0].as_slice(), 'x')?;
        let y = parse_coordinate(parts[1].as_slice(), 'y')?;
        let z = parse_coordinate(parts[2].as_slice(), 'z')?;
        Ok(Self::new(x, y, z))
    }
}

impl core::str::FromStr for Vector3 {
    type Err = VectorError;

    /// Reads a vector as [`Vector3::parse`] does.
    fn from_str(s: &str) -> (r: Result<Self, VectorError>)
        ensures
            r == vector_of(s@),
    {
        let text = chars_of(s);
        Vector3::parse(text.as_slice())
    }
}

/// The moons at rest that the lines of a text stand for, one vector on each
/// line. The first line that is no vector decides the error.
pub open spec fn planets_of(rows: Seq<Seq<char>>) -> Result<Seq<Planet>, VectorError>
    decreases rows.len(),
{
    if rows.len() == 0 {
        Ok(Seq::<Planet>::empty())
    } else {
        match planets_of(rows.drop_last()) {
            Err(error) => Err(error),
            Ok(before) => match vector_of(rows.last()) {
                Err(error) => Err(error),
                Ok(position) => Ok(
                    before.push(Planet { position, velocity: Vector3 { x: 0, y: 0, z: 0 } }),
                ),
            },
        }
    }
}

/// Where the first lines fail, the whole text fails in the same way.
proof fn lemma_planets_of_fails_on(rows: Seq<Seq<char>>, n: int)
    requires
        0 <= n <= rows.len(),
    ensures
        planets_of(rows.take(n)) matches Err(error) ==> planets_of(rows) == Err::<
            Seq<Planet>,
            VectorError,
        >(error),
    decreases rows.len() - n,
{
    if n == rows.len() {
        assert(rows.take(n) =~= rows);
    } else {
        lemma_planets_of_fails_on(rows.drop_last(), n);
        assert(rows.drop_last().take(n) =~= rows.take(n));
    }
}

/// Reads the moons of a text, one place on each line.
pub fn parse_into_planets(input: &str) -> (r: Result<Vec<Planet>, VectorError>)
    ensures
        match planets_of(lines_of(input@)) {
            Ok(planets) => r matches Ok(system) && system@ == planets,
            Err(error) => r matches Err(e) && e == error,
        },
{
    let text = chars_of(input);
    let rows = lines(text.as_slice());
    let mut system: Vec<Planet> = Vec::new();
    let mut i: usize = 0;
    while i < rows.len()
        invariant
            i <= rows@.len(),
            texts_of(rows@) == lines_of(input@),
            planets_of(texts_of(rows@).take(i as int)) == Ok::<Seq<Planet>, VectorError>(system@),
        decreases rows@.len() - i,
    {
        let ghost through = texts_of(rows@).take(i + 1);
        assert(through.drop_last() =~= texts_of(rows@).take(i as int));
        proof {
            lemma_planets_of_fails_on(texts_of(rows@), i + 1);
        }
        match Vector3::parse(rows[i].as_slice()) {
            Ok(position) => {
                system.push(Planet::from(position));
            },
            Err(error) => {
                return Err(error);
            },
        }
        i += 1;
    }
    assert(texts_of(rows@).take(rows@.len() as int) =~= texts_of(rows@));
    Ok(system)
}

/// The most moons that a system may hold for [`energy_after_steps`].
pub const MAX_PLANETS: usize = 64;

/// The most steps that [`energy_after_steps`] takes.
pub const MAX_STEPS: usize = 4096;

/// The greatest coordinate, either way, that a place may have at the
/// beginning of [`energy_after_steps`].
pub const MAX_COORDINATE: i64 = 16_777_216;

/// The greatest coordinate, either way, that a velocity may have at the
/// beginning of [`energy_after_steps`].
pub const MAX_SPEED: i64 = 4096;

/// Whether every coordinate of `v` lies within `bound` of zero.
pub open spec fn vector_within(v: Vector3, bound: int) -> bool {
    &&& -bound <= v.x <= bound
    &&& -bound <= v.y <= bound
    &&& -bound <= v.z <= bound
}

/// Whether the places of all moons lie within `place` of the origin on every
/// axis, and their velocities within `speed` of rest.
pub open spec fn within(system: Seq<Planet>, place: int, speed: int) -> bool {
    forall|k: int|
        0 <= k < system.len() ==> vector_within((#[trigger] system[k]).position, place)
            && vector_within(system[k].velocity, speed)
}

/// Whether a system is small and slow enough for `steps` steps: no number
/// can leave its type before the energy is known.
pub open spec fn can_simulate(system: Seq<Planet>, steps: int) -> bool {
    &&& system.len() <= MAX_PLANETS
    &&& 0 <= steps <= MAX_STEPS
    &&& within(system, MAX_COORDINATE as int, MAX_SPEED as int)
}

/// The change of velocity that the first `upto` moons of a system cause
/// together on moon `k`, on each axis.
pub open spec fn pull(system: Seq<Planet>, k: int, upto: int) -> (int, int, int)
    decreases upto,
{
    if upto <= 0 {
        (0, 0, 0)
    } else {
        let before = pull(system, k, upto - 1);
        let own = system[k].position;
        let other = system[upto - 1].position;
        (
            before.0 + toward(own.x as int, other.x as int),
            before.1 + toward(own.y as int, other.y as int),
            before.2 + toward(own.z as int, other.z as int),
        )
    }
}

/// A moon after its velocity has changed by `change`.
pub open spec fn with_pull(planet: Planet, change: (int, int, int)) -> Planet {
    Planet {
        position: planet.position,
        velocity: Vector3 {
            x: (planet.velocity.x + change.0) as i64,
            y: (planet.velocity.y + change.1) as i64,
            z: (planet.velocity.z + change.2) as i64,
        },
    }
}

/// The system after every moon has pulled at every other.
pub open spec fn after_gravity(system: Seq<Planet>) -> Seq<Planet> {
    Seq::new(system.len(), |k: int| with_pull(system[k], pull(system, k, system.len() as int)))
}

/// The system after every moon has moved by its velocity.
pub open spec fn after_velocity(system: Seq<Planet>) -> Seq<Planet> {
    Seq::new(
        system.len(),
        |k: int|
            Planet {
                position: system[k].position.plus(system[k].velocity),
                velocity: system[k].velocity,
            },
    )
}

/// The system after `steps` steps of time: in each, the moons pull at each
/// other, and then they move.
pub open spec fn simulated(system: Seq<Planet>, steps: nat) -> Seq<Planet>
    decreases steps,
{
    if steps == 0 {
        system
    } else {
        after_velocity(after_gravity(simulated(system, (steps - 1) as nat)))
    }
}

/// The energy of the first `upto` moons together.
pub open spec fn energy_of(system: Seq<Planet>, upto: int) -> int
    decreases upto,
{
    if upto <= 0 {
        0
    } else {
        energy_of(system, upto - 1) + system[upto - 1].spec_total_energy()
    }
}

/// The energy of all moons together after `steps` steps of time.
pub open spec fn energy_after(system: Seq<Planet>, steps: nat) -> int {
    energy_of(simulated(system, steps), simulated(system, steps).len() as int)
}

/// The pull of `upto` moons is at most `upto` on every axis.
proof fn lemma_pull_is_bounded(system: Seq<Planet>, k: int, upto: int)
    requires
        0 <= upto,
    ensures
        -upto <= pull(system, k, upto).0 <= upto,
        -upto <= pull(system, k, upto).1 <= upto,
        -upto <= pull(system, k, upto).2 <= upto,
    decreases upto,
{
    if upto > 0 {
        lemma_pull_is_bounded(system, k, upto - 1);
    }
}

/// How many moons have pulled at moon `k` when the pairs of moons are taken
/// row by row and pair `(i, j)` is the next.
pub open spec fn pulls_done(k: int, i: int, j: int, n: int) -> int {
    if k < i {
        n
    } else if k == i {
        j
    } else if k < j {
        i + 1
    } else {
        i
    }
}

/// The speed that no moon exceeds after `step` steps.
pub open spec fn speed_bound(step: int) -> int {
    MAX_SPEED + 64 * step
}

/// The distance from the origin, on one axis, that no moon exceeds after
/// `step` steps.
pub open spec fn place_bound(step: int) -> int {
    MAX_COORDINATE + 266_240 * step
}

/// The energy of a moon within the bounds is bounded.
proof fn lemma_energy_is_bounded(planet: Planet)
    requires
        vector_within(planet.position, 1_107_296_256),
        vector_within(planet.velocity, 266_240),
    ensures
        0 <= planet.position.spec_distance() <= 3_321_888_768,
        0 <= planet.velocity.spec_distance() <= 798_720,
        0 <= planet.spec_total_energy() <= 2_653_258_996_776_960,
{
    let p = planet.position.spec_distance();
    let v = planet.velocity.spec_distance();
    assert(0 <= p * v <= 3_321_888_768 * 798_720) by (nonlinear_arith)
        requires
            0 <= p <= 3_321_888_768,
            0 <= v <= 798_720,
    ;
}

/// Every moon pulls at every other: the velocity of each changes, on each
/// axis, by the number of moons beyond it less the number of moons before
/// it.
fn apply_gravity(system: &mut [Planet], Ghost(step): Ghost<int>)
    requires
        old(system)@.len() <= MAX_PLANETS,
        0 <= step < MAX_STEPS,
        within(old(system)@, place_bound(step), speed_bound(step)),
    ensures
        final(system)@ == after_gravity(old(system)@),
        within(final(system)@, place_bound(step), speed_bound(step + 1)),
{
    let n = system.len();
    let ghost start = system@;
    let mut i: usize = 0;
    assert forall|k: int| 0 <= k < n implies #[trigger] system@[k] == with_pull(
        start[k],
        pull(start, k, pulls_done(k, 0, 1, n as int)),
    ) by {
        assert(pull(start, k, 0) == (0int, 0int, 0int));
        if k == 0 {
            assert(pull(start, k, 1) == (0int, 0int, 0int));
        }
    }
    while i < n
        invariant
            i <= n,
            n == start.len(),
            n == system@.len(),
            n <= MAX_PLANETS,
            0 <= step < MAX_STEPS,
            within(start, place_bound(step), speed_bound(step)),
            forall|k: int|
                0 <= k < n ==> #[trigger] system@[k] == with_pull(
                    start[k],
                    pull(start, k, pulls_done(k, i as int, i + 1, n as int)),
                ),
        decreases n - i,
    {
        let mut j: usize = i + 1;
        while j < n
            invariant
                i < j <= n,
                n == start.len(),
                n == system@.len(),
                n <= MAX_PLANETS,
                0 <= step < MAX_STEPS,
                within(start, place_bound(step), speed_bound(step)),
                forall|k: int|
                    0 <= k < n ==> #[trigger] system@[k] == with_pull(
                        start[k],
                        pull(start, k, pulls_done(k, i as int, j as int, n as int)),
                    ),
            decreases n - j,
        {
            let ghost before = system@;
            proof {
                lemma_pull_is_bounded(start, i as int, j as int);
                lemma_pull_is_bounded(start, j as int, i as int);
                assert(before[i as int] == with_pull(start[i as int], pull(start, i as int, j as int)));
                assert(before[j as int] == with_pull(start[j as int], pull(start, j as int, i as int)));
                assert(vector_within(start[i as int].velocity, speed_bound(step)));
                assert(vector_within(start[j as int].velocity, speed_bound(step)));
            }
            let mut first = system[i];
            let mut second = system[j];
            first.apply_speed_influence(&mut second);
            system[i] = first;
            system[j] = second;
            proof {
                assert(first == with_pull(start[i as int], pull(start, i as int, j + 1)));
                assert(second == with_pull(start[j as int], pull(start, j as int, i + 1)));
                assert forall|k: int| 0 <= k < n implies #[trigger] system@[k] == with_pull(
                    start[k],
                    pull(start, k, pulls_done(k, i as int, j + 1, n as int)),
                ) by {
                    if k != i && k != j {
                        assert(system@[k] == before[k]);
                    }
                }
            }
            j += 1;
        }
        proof {
            assert forall|k: int| 0 <= k < n implies #[trigger] system@[k] == with_pull(
                start[k],
                pull(start, k, pulls_done(k, i + 1, i + 2, n as int)),
            ) by {
                if k == i + 1 {
                    assert(pull(start, k, i + 2).0 == pull(start, k, i + 1).0);
                    assert(pull(start, k, i + 2) == pull(start, k, i + 1));
                }
            }
        }
        i += 1;
    }
    proof {
        assert forall|k: int| 0 <= k < n implies vector_within(
            (#[trigger] system@[k]).position,
            place_bound(step),
        ) && vector_within(system@[k].velocity, speed_bound(step + 1)) by {
            lemma_pull_is_bounded(start, k, n as int);
            assert(vector_within(start[k].position, place_bound(step)));
            assert(vector_within(start[k].velocity, speed_bound(step)));
        }
        assert(system@ =~= after_gravity(start));
    }
}

/// Every moon moves by its velocity.
fn apply_velocities(system: &mut [Planet], Ghost(step): Ghost<int>)
    requires
        0 <= step < MAX_STEPS,
        within(old(system)@, place_bound(step), speed_bound(step + 1)),
    ensures
        final(system)@ == after_velocity(old(system)@),
        within(final(system)@, place_bound(step + 1), speed_bound(step + 1)),
{
    let n = system.len();
    let ghost start = system@;
    let mut k: usize = 0;
    while k < n
        invariant
            k <= n,
            n == start.len(),
            n == system@.len(),
            0 <= step < MAX_STEPS,
            within(start, place_bound(step), speed_bound(step + 1)),
            forall|m: int| 0 <= m < k ==> #[trigger] system@[m] == after_velocity(start)[m],
            forall|m: int| k <= m < n ==> #[trigger] system@[m] == start[m],
        decreases n - k,
    {
        let mut planet = system[k];
        planet.apply_velocity();
        system[k] = planet;
        k += 1;
    }
}

/// Lets `steps` steps of time pass, and returns the energy of all moons
/// together after them.
///
/// The system may hold up to [`MAX_PLANETS`] moons and take up to
/// [`MAX_STEPS`] steps, from places within [`MAX_COORDINATE`] of the origin
/// and velocities within [`MAX_SPEED`] of rest, on every axis.
pub fn energy_after_steps(system: &mut [Planet], steps: usize) -> (energy: u64)
    requires
        can_simulate(old(system)@, steps as int),
    ensures
        final(system)@ == simulated(old(system)@, steps as nat),
        energy == energy_after(old(system)@, steps as nat),
{
    let mut step: usize = 0;
    while step < steps
        invariant
            step <= steps <= MAX_STEPS,
            system@.len() == old(system)@.len(),
            system@.len() <= MAX_PLANETS,
            system@ == simulated(old(system)@, step as nat),
            within(system@, place_bound(step as int), speed_bound(step as int)),
        decreases steps - step,
    {
        apply_gravity(system, Ghost(step as int));
        apply_velocities(system, Ghost(step as int));
        step += 1;
    }
    let mut energy: u64 = 0;
    let mut k: usize = 0;
    while k < system.len()
        invariant
            k <= system@.len() <= MAX_PLANETS,
            step <= MAX_STEPS,
            within(system@, place_bound(step as int), speed_bound(step as int)),
            energy == energy_of(system@, k as int),
            energy <= k * 2_653_258_996_776_960,
        decreases system@.len() - k,
    {
        let planet = system[k];
        proof {
            lemma_energy_is_bounded(planet);
        }
        energy += planet.total_energy();
        k += 1;
    }
    energy
}

/// Why the energy of a system is not known.
#[derive(Debug, Clone, Copy, PartialEq, Eq)]
pub enum EnergyError {
    /// The text describes no system of moons.
    Parse(VectorError),
    /// The system is too large or too fast for [`energy_after_steps`].
    OutOfRange,
}

/// Whether every coordinate of `v` lies within `bound` of zero.
fn is_vector_within(v: &Vector3, bound: i64) -> (r: bool)
    requires
        0 <= bound,
    ensures
        r == vector_within(*v, bound as int),
{
    -bound <= v.x && v.x <= bound && -bound <= v.y && v.y <= bound && -bound <= v.z && v.z
        <= bound
}

/// Whether the system can be simulated for `steps` steps.
pub fn check_can_simulate(system: &[Planet], steps: usize) -> (r: bool)
    ensures
        r == can_simulate(system@, steps as int),
{
    if system.len() > MAX_PLANETS || steps > MAX_STEPS {
        return false;
    }
    let mut k: usize = 0;
    while k < system.len()
        invariant
            k <= system@.len(),
            within(system@.take(k as int), MAX_COORDINATE as int, MAX_SPEED as int),
        decreases system@.len() - k,
    {
        if !is_vector_within(&system[k].position, MAX_COORDINATE) || !is_vector_within(
            &system[k].velocity,
            MAX_SPEED,
        ) {
            return false;
        }
        k += 1;
    }
    assert(system@.take(system@.len() as int) =~= system@);
    true
}

/// The energy, after 1000 steps, of the moons that a text describes.
pub fn part1(input: &str) -> (r: Result<u64, EnergyError>)
    ensures
        match planets_of(lines_of(input@)) {
            Err(error) => r == Err::<u64, EnergyError>(EnergyError::Parse(error)),
            Ok(planets) => if can_simulate(planets, 1000) {
                r matches Ok(energy) && energy == energy_after(planets, 1000)
            } else {
                r == Err::<u64, EnergyError>(EnergyError::OutOfRange)
            },
        },
{
    let mut planets = match parse_into_planets(input) {
        Ok(planets) => planets,
        Err(error) => {
            return Err(EnergyError::Parse(error));
        },
    };
    if !check_can_simulate(planets.as_slice(), 1000) {
        return Err(EnergyError::OutOfRange);
    }
    let energy = energy_after_steps(planets.as_mut_slice(), 1000);
    Ok(energy)
}

} // verus!
