use intcode_vm::day08::{parse, parse_with, part1, part2, Layer};

const PART1_EXAMPLE: &[u8] = b"123456789012\n";
const PART2_EXAMPLE: &[u8] = b"0222112222120000\n";

#[test]
fn day08_part1_example() {
    assert_eq!(part1(&parse_with(PART1_EXAMPLE, 3, 2)), 1);
}

#[test]
fn day08_part2_example() {
    assert_eq!(&part2(&parse_with(PART2_EXAMPLE, 2, 2)), "\n #\n# \n");
}

#[test]
fn day08_parse_with_reads_whole_layers() {
    let layers = parse_with(PART1_EXAMPLE, 3, 2);
    assert_eq!(layers.len(), 2);
    assert_eq!(layers[0].get_width(), 3);
    assert_eq!(layers[0].get_height(), 2);
    assert_eq!(
        layers[0].iter().copied().collect::<Vec<u8>>(),
        vec![1, 2, 3, 4, 5, 6]
    );
    assert_eq!(
        layers[1].iter().copied().collect::<Vec<u8>>(),
        vec![7, 8, 9, 0, 1, 2]
    );
    assert_eq!(parse_with(b"12345", 3, 2).len(), 0);
    assert_eq!(parse_with(b"123456789", 3, 2).len(), 1);
    assert_eq!(parse_with(b"123456 89012", 3, 2).len(), 1);
    assert_eq!(parse(&[b'1'; 310]).len(), 2);
}

#[test]
fn day08_from_iterator_moves_the_position() {
    let input = b"1234 678";
    let mut position = 0;
    let layer = Layer::from_iterator(input, &mut position, 2, 2).unwrap();
    assert_eq!(position, 4);
    assert_eq!(layer.get(1, 1), Some(&4));
    assert!(Layer::from_iterator(input, &mut position, 2, 2).is_none());
    assert_eq!(position, 5);
    assert!(Layer::from_iterator(input, &mut position, 2, 2).is_none());
    assert_eq!(position, 8);
    let colon = Layer::from_iterator(b":", &mut 0, 1, 1).unwrap();
    assert_eq!(colon.get(0, 0), Some(&10));
}

#[test]
fn day08_get_and_get_mut() {
    let mut layer = parse_with(b"123456", 3, 2).remove(0);
    assert_eq!(layer.get(0, 0), Some(&1));
    assert_eq!(layer.get(1, 2), Some(&6));
    assert_eq!(layer.get(0, 4), Some(&5));
    assert_eq!(layer.get(2, 0), None);
    assert_eq!(layer.get(usize::MAX, usize::MAX), None);
    *layer.get_mut(1, 0).unwrap() = 0;
    assert_eq!(layer.get(1, 0), Some(&0));
    assert!(layer.get_mut(2, 0).is_none());
    assert_eq!(layer.count(0), 1);
    assert_eq!(layer.count(7), 0);
    assert_eq!(layer.render(), "#23\n 56\n");
}

#[test]
fn day08_part1_takes_the_first_layer_with_fewest_zeros() {
    assert_eq!(part1(&parse_with(b"011222001122", 3, 2)), 6);
    assert_eq!(part1(&parse_with(b"001122011222", 3, 2)), 6);
    assert_eq!(part1(&parse_with(b"011222012122", 3, 2)), 6);
}

#[test]
fn day08_part2_shows_transparent_pixels_as_two() {
    assert_eq!(&part2(&parse_with(b"22102201", 2, 2)), "\n22\n# \n");
    assert_eq!(&part2(&parse_with(b"23", 2, 1)), "\n23\n");
}
