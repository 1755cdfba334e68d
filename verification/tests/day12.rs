use intcode_vm::day12::{
    check_can_simulate, energy_after_steps, parse_into_planets, part1, EnergyError, Planet,
    Vector3, VectorError,
};
use intcode_vm::number::NumberError;

const EXAMPLE1: &str = "<x=-1, y=0, z=2>
<x=2, y=-10, z=-7>
<x=4, y=-8, z=8>
<x=3, y=5, z=-1>";

const EXAMPLE2: &str = "<x=-8, y=-10, z=0>
<x=5, y=5, z=10>
<x=2, y=-7, z=3>
<x=9, y=-8, z=-3>";

#[test]
fn day12_part1_example1() {
    let mut planets = parse_into_planets(EXAMPLE1).unwrap();
    assert_eq!(energy_after_steps(&mut planets, 10), 179);
}

#[test]
fn day12_part1_example2() {
    let mut planets = parse_into_planets(EXAMPLE2).unwrap();
    assert_eq!(energy_after_steps(&mut planets, 100), 1940);
}

#[test]
fn day12_first_step_of_the_example() {
    let mut planets = parse_into_planets(EXAMPLE1).unwrap();
    assert_eq!(energy_after_steps(&mut planets, 1), 229);
    assert_eq!(
        planets[0],
        Planet {
            position: Vector3::new(2, -1, 1),
            velocity: Vector3::new(3, -1, -1)
        }
    );
    assert_eq!(
        planets[3],
        Planet {
            position: Vector3::new(2, 2, 0),
            velocity: Vector3::new(-1, -3, 1)
        }
    );
    let mut still = parse_into_planets(EXAMPLE1).unwrap();
    assert_eq!(energy_after_steps(&mut still, 0), 0);
    assert_eq!(still, parse_into_planets(EXAMPLE1).unwrap());
}

#[test]
fn day12_vectors() {
    assert_eq!(Vector3::new(-1, 2, -3).cartesian_distance_from_origin(), 6);
    assert_eq!(Vector3::default(), Vector3::new(0, 0, 0));
    assert_eq!(
        Vector3::new(1, 2, 3) + Vector3::new(-4, 5, 6),
        Vector3::new(-3, 7, 9)
    );
    assert_eq!("<x=-1, y=0, z=2>".parse(), Ok(Vector3::new(-1, 0, 2)));
    assert_eq!("<<x=1,y= 2 , z=+3>>".parse(), Ok(Vector3::new(1, 2, 3)));
    assert_eq!("x=1,y=2,z=3".parse(), Ok(Vector3::new(1, 2, 3)));
    assert_eq!(
        "<x=1, y=2>".parse::<Vector3>(),
        Err(VectorError::NotThreeParts)
    );
    assert_eq!(
        "<x=1, z=2, y=3>".parse::<Vector3>(),
        Err(VectorError::MissingName('y'))
    );
    assert_eq!(
        " <x=1, y=2, z=3>".parse::<Vector3>(),
        Err(VectorError::MissingName('x'))
    );
    assert_eq!(
        "<x=1, y=2, z=>".parse::<Vector3>(),
        Err(VectorError::BadNumber(NumberError::Empty))
    );
    assert_eq!(
        "<x=a, y=, z=3>".parse::<Vector3>(),
        Err(VectorError::BadNumber(NumberError::InvalidDigit))
    );
}

#[test]
fn day12_planets() {
    let mut a = Planet::from(Vector3::new(3, 0, -5));
    let mut b = Planet::from(Vector3::new(5, 0, -9));
    a.apply_speed_influence(&mut b);
    assert_eq!(a.velocity, Vector3::new(1, 0, -1));
    assert_eq!(b.velocity, Vector3::new(-1, 0, 1));
    a.speed_influence_x(&mut b);
    a.speed_influence_y(&mut b);
    a.speed_influence_z(&mut b);
    assert_eq!(a.velocity, Vector3::new(2, 0, -2));
    assert_eq!(b.velocity, Vector3::new(-2, 0, 2));
    a.apply_velocity();
    assert_eq!(a.position, Vector3::new(5, 0, -7));
    assert_eq!(a.total_energy(), 12 * 4);
}

#[test]
fn day12_part1_runs_a_thousand_steps_or_refuses() {
    assert_eq!(part1("<x=0, y=0, z=0>"), Ok(0));
    assert_eq!(part1("<x=1, y=0, z=0>\n<x=-1, y=0, z=0>"), Ok(0));
    assert_eq!(part1(EXAMPLE1), Ok(183));
    assert_eq!(
        part1("<x=1, y=0>"),
        Err(EnergyError::Parse(VectorError::NotThreeParts))
    );
    assert_eq!(part1("<x=16777217, y=0, z=0>"), Err(EnergyError::OutOfRange));
    let planets = parse_into_planets(EXAMPLE2).unwrap();
    assert!(check_can_simulate(&planets, 4096));
    assert!(!check_can_simulate(&planets, 4097));
}
