use intcode_vm::day10::{count_seen_asteroids, make_laser_hit_map, parse, part1, Pos, Tile};

const EXAMPLE1: &str = "......#.#.
#..#.#....
..#######.
.#.#.###..
.#..#.....
..#....#.#
#..#....#.
.##.#..###
##...#..#.
.#....####";

const EXAMPLE2: &str = "#.#...#.#.
.###....#.
.#....#...
##.#.#.#.#
....#.#.#.
.##..###.#
..#...##..
..##....##
......#...
.####.###.";

const EXAMPLE3: &str = ".#..#..###
####.###.#
....###.#.
..###.##.#
##.##.#.#.
....###..#
..#.#..#.#
#..#.#.###
.##...##.#
.....#.#..";

const EXAMPLE4: &str = ".#..##.###...#######
##.############..##.
.#.######.########.#
.###.#######.####.#.
#####.##.#.##.###.##
..#####..#.#########
####################
#.####....###.#.#.##
##.#################
#####.##.###..####..
..######..##.#######
####.##.####...##..#
.#####..#.######.###
##...#.##########...
#.##########.#######
.####.#.###.###.#.##
....##.##.###..#####
.#.#.###########.###
#.#.#.#####.####.###
###.##.####.##.#..##";

#[test]
fn day10_part1_examples() {
    assert_eq!(part1(&parse(EXAMPLE1)), 33);
    assert_eq!(part1(&parse(EXAMPLE2)), 35);
    assert_eq!(part1(&parse(EXAMPLE3)), 41);
    assert_eq!(part1(&parse(EXAMPLE4)), 210);
}

#[test]
fn day10_small_belt() {
    let grid = parse(".#..#\n.....\n#####\n....#\n...##");
    assert_eq!(grid.len(), 5);
    assert_eq!(
        grid[0],
        vec![
            Tile::Empty,
            Tile::Asteroid,
            Tile::Empty,
            Tile::Empty,
            Tile::Asteroid
        ]
    );
    assert_eq!(count_seen_asteroids(Pos(4, 3), &grid), 8);
    assert_eq!(count_seen_asteroids(Pos(0, 1), &grid), 7);
    assert_eq!(count_seen_asteroids(Pos(2, 4), &grid), 5);
    assert_eq!(count_seen_asteroids(Pos(1, 1), &grid), 9);
    assert_eq!(part1(&grid), 8);
    assert_eq!(part1(&parse("#")), 0);
    assert_eq!(part1(&parse("#.#.#")), 2);
}

#[test]
fn day10_positions() {
    assert_eq!(Pos(3, -4).distance_to(&Pos(-1, 6)), Pos(-4, 10));
    assert_eq!(Pos(-4, 10).reduced_vector(), Pos(-2, 5));
    assert_eq!(Pos(0, -7).reduced_vector(), Pos(0, -1));
    assert_eq!(Pos(6, 0).reduced_vector(), Pos(1, 0));
    assert_eq!(Pos(-12, -18).reduced_vector(), Pos(-2, -3));
    assert_eq!(Pos(7, 5).reduced_vector(), Pos(7, 5));
    assert_eq!(Tile::from('#'), Tile::Asteroid);
    assert_eq!(Tile::from('.'), Tile::Empty);
}

#[test]
fn day10_laser_hit_map_lists_each_direction_nearest_last() {
    let grid = parse(".#..#\n.....\n#####\n....#\n...##");
    let map = make_laser_hit_map(Pos(2, 0), &grid);
    assert_eq!(map.len(), count_seen_asteroids(Pos(2, 0), &grid));
    assert_eq!(
        map[&(0, 1)],
        vec![(4, (2, 4)), (3, (2, 3)), (2, (2, 2)), (1, (2, 1))]
    );
    assert_eq!(map[&(-2, 1)], vec![(1, (0, 1))]);
    assert_eq!(map[&(-1, 2)], vec![(2, (0, 4))]);
    assert_eq!(map[&(1, 4)], vec![(1, (3, 4))]);
    assert_eq!(map[&(2, 3)], vec![(1, (4, 3))]);
    assert_eq!(map[&(1, 2)], vec![(2, (4, 4))]);
    assert_eq!(map.len(), 6);
    assert_eq!(map.values().map(Vec::len).sum::<usize>(), 9);
    let from_the_end = make_laser_hit_map(Pos(2, 4), &grid);
    assert_eq!(
        from_the_end[&(0, -1)],
        vec![(4, (2, 0)), (3, (2, 1)), (2, (2, 2)), (1, (2, 3))]
    );
    assert_eq!(from_the_end[&(1, 0)], vec![(2, (4, 4)), (1, (3, 4))]);
    let empty = make_laser_hit_map(Pos(0, 0), &parse("#"));
    assert!(empty.is_empty());
}
