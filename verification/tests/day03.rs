use intcode_vm::day03::{parse, part1, part2, Point, Segment, SegmentSliceIterator, WireError};
use intcode_vm::number::NumberError;

const EXAMPLE1: &str = "R8,U5,L5,D3
U7,R6,D4,L4";

const EXAMPLE2: &str = "R75,D30,R83,U83,L12,D49,R71,U7,L72
U62,R66,U55,R34,D71,R55,D58,R83";

const EXAMPLE3: &str = "R98,U47,R26,D63,R33,U87,L62,D20,R33,U53,R51
U98,R91,D20,R16,D67,R40,U7,R15,U6,R7";

#[test]
fn day03_part1_examples() {
    assert_eq!(part1(&parse(EXAMPLE1).unwrap()), 6);
    assert_eq!(part1(&parse(EXAMPLE2).unwrap()), 159);
    assert_eq!(part1(&parse(EXAMPLE3).unwrap()), 135);
}

#[test]
fn day03_part2_examples() {
    assert_eq!(part2(&parse(EXAMPLE1).unwrap()), 30);
    assert_eq!(part2(&parse(EXAMPLE2).unwrap()), 610);
    assert_eq!(part2(&parse(EXAMPLE3).unwrap()), 410);
}

fn point(x: i64, y: i64) -> Point {
    Point { x, y }
}

fn segment(a: (i64, i64), b: (i64, i64)) -> Segment {
    Segment::from((point(a.0, a.1), point(b.0, b.1)))
}

#[test]
fn day03_parse_lays_segments_end_to_end() {
    let (first, second) = parse("R8, U5 ,L5,D3\nU7").unwrap();
    assert_eq!(
        first,
        vec![
            segment((0, 0), (8, 0)),
            segment((8, 0), (8, 5)),
            segment((8, 5), (3, 5)),
            segment((3, 5), (3, 2)),
        ]
    );
    assert_eq!(second, vec![segment((0, 0), (0, 7))]);
}

#[test]
fn day03_parse_errors() {
    assert_eq!(parse("R8"), Err(WireError::NotTwoLines));
    assert_eq!(parse("R8\nU1\nL2"), Err(WireError::NotTwoLines));
    assert_eq!(parse("R8\nX1"), Err(WireError::UnknownDirection));
    assert_eq!(parse("R8,\nU1"), Err(WireError::UnknownDirection));
    assert_eq!(
        parse("R8\nUx"),
        Err(WireError::BadNumber(NumberError::InvalidDigit))
    );
    assert_eq!(parse("R\nU1"), Err(WireError::BadNumber(NumberError::Empty)));
    assert_eq!(
        parse("R9223372036854775807,R1\nU1"),
        Err(WireError::OutOfRange)
    );
    assert_eq!(
        parse("L5,L-9223372036854775808\nU1").unwrap().0[1],
        segment((-5, 0), (9223372036854775803, 0))
    );
}

#[test]
fn day03_distances() {
    assert_eq!(point(3, -4).distance(), 7);
    assert_eq!(point(0, 0).distance(), 0);
    assert_eq!(point(3, -4).distance_from(&point(-1, 6)), 14);
    assert_eq!(
        point(i64::MIN, 0).distance_from(&point(i64::MAX, 0)),
        u64::MAX
    );
    assert_eq!(segment((2, 3), (2, -7)).length(), 10);
}

#[test]
fn day03_segment_bounds_and_direction() {
    let s = segment((5, 1), (-2, 1));
    assert_eq!((s.min_x(), s.max_x(), s.min_y(), s.max_y()), (-2, 5, 1, 1));
    assert_eq!((s.any_x(), s.any_y()), (5, 1));
    assert!(s.is_horizontal());
    assert!(!s.is_vertical());
    let v = segment((0, 9), (0, -9));
    assert!(v.is_vertical());
    assert!(!v.is_horizontal());
}

#[test]
fn day03_intersection_point() {
    let h = segment((5, 1), (-2, 1));
    let v = segment((0, 9), (0, -9));
    assert_eq!(h.intersection_point(&v), Some(point(0, 1)));
    assert_eq!(v.intersection_point(&h), Some(point(0, 1)));
    assert_eq!(h.intersection_point(&h), None);
    assert_eq!(v.intersection_point(&v), None);
    assert_eq!(v.intersection_point(&segment((1, 0), (4, 0))), None);
    assert_eq!(
        v.intersection_point(&segment((0, 9), (4, 9))),
        Some(point(0, 9))
    );
    assert_eq!(v.intersection_point(&segment((-3, 10), (4, 10))), None);
}

#[test]
fn day03_segment_walk_counts_the_length_before_each_segment() {
    let wire = parse("R8,U5,L5,D3\nU1").unwrap().0;
    let mut walk = SegmentSliceIterator::new(&wire);
    assert_eq!(walk.next(), Some((0, &wire[0])));
    assert_eq!(walk.next(), Some((8, &wire[1])));
    assert_eq!(walk.next(), Some((13, &wire[2])));
    assert_eq!(walk.next(), Some((18, &wire[3])));
    assert_eq!(walk.next(), None);
    assert_eq!(walk.next(), None);
}
