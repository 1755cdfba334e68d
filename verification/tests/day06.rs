use intcode_vm::day06::{parse_part1, parse_part2, part1, part2, Graph, OrbitError};

const EXAMPLE_P1: &str = "COM)B
B)C
C)D
D)E
E)F
B)G
G)H
D)I
E)J
J)K
K)L";

const EXAMPLE_P2: &str = "COM)B
B)C
C)D
D)E
E)F
B)G
G)H
D)I
E)J
J)K
K)L
K)YOU
I)SAN";

#[test]
fn day06_part1_example() {
    assert_eq!(part1(&parse_part1(EXAMPLE_P1).unwrap()).unwrap(), 42);
}

#[test]
fn day06_part2_example() {
    assert_eq!(part2(&parse_part2(EXAMPLE_P2).unwrap()).unwrap(), 4);
}

fn chars(s: &str) -> Vec<char> {
    s.chars().collect()
}

#[test]
fn day06_counts_every_way_and_trims_names() {
    assert_eq!(part1(&parse_part1("").unwrap()), Ok(0));
    assert_eq!(part1(&parse_part1("A)B").unwrap()), Ok(0));
    assert_eq!(part1(&parse_part1(" COM ) B \nCOM)B\nB)C").unwrap()), Ok(3));
    assert_eq!(
        part1(&parse_part1("COM)A\nCOM)B\nA)C\nB)C").unwrap()),
        Ok(1 + 1 + 2 + 2)
    );
    assert_eq!(parse_part1("COM)B\nB-C").unwrap_err(), OrbitError::NoParen);
    assert_eq!(parse_part2("COM").unwrap_err(), OrbitError::NoParen);
}

#[test]
fn day06_distances() {
    let graph = parse_part2(EXAMPLE_P2).unwrap();
    assert_eq!(
        graph.calculate_distance_between(&chars("YOU"), &chars("SAN")),
        Ok(6)
    );
    assert_eq!(
        graph.calculate_distance_between(&chars("COM"), &chars("COM")),
        Ok(0)
    );
    assert_eq!(
        graph.calculate_distance_between(&chars("COM"), &chars("L")),
        Ok(7)
    );
    assert_eq!(
        graph.calculate_distance_between(&chars("COM"), &chars("X")),
        Err(OrbitError::NoPath)
    );
    assert_eq!(
        graph.calculate_distance_between(&chars("X"), &chars("COM")),
        Err(OrbitError::UnknownObject)
    );
    let one_way = parse_part1("YOU)SAN").unwrap();
    assert_eq!(part2(&one_way), Err(OrbitError::TooClose));
    let cut = parse_part1("YOU)A").unwrap();
    assert_eq!(part2(&cut), Err(OrbitError::UnknownObject));
    let mut ring = Graph::new();
    ring.add_edge(&chars("YOU"), &chars("A"));
    ring.add_edge(&chars("A"), &chars("YOU"));
    ring.add_edge(&chars("A"), &chars("A"));
    assert_eq!(part2(&ring), Err(OrbitError::NoPath));
}
