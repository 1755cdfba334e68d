use intcode_vm::day14::{parse, part1, part2, Chemical, ChemistryError, ReactionError, Recipe};
use intcode_vm::number::NumberError;

const EXAMPLE1: &str = "10 ORE => 10 A
1 ORE => 1 B
7 A, 1 B => 1 C
7 A, 1 C => 1 D
7 A, 1 D => 1 E
7 A, 1 E => 1 FUEL";

const EXAMPLE2: &str = "9 ORE => 2 A
8 ORE => 3 B
7 ORE => 5 C
3 A, 4 B => 1 AB
5 B, 7 C => 1 BC
4 C, 1 A => 1 CA
2 AB, 3 BC, 4 CA => 1 FUEL";

const EXAMPLE3: &str = "157 ORE => 5 NZVS
165 ORE => 6 DCFZ
44 XJWVT, 5 KHKGT, 1 QDVJ, 29 NZVS, 9 GPVTF, 48 HKGWZ => 1 FUEL
12 HKGWZ, 1 GPVTF, 8 PSHF => 9 QDVJ
179 ORE => 7 PSHF
177 ORE => 5 HKGWZ
7 DCFZ, 7 PSHF => 2 XJWVT
165 ORE => 2 GPVTF
3 DCFZ, 7 NZVS, 5 HKGWZ, 10 PSHF => 8 KHKGT";

const EXAMPLE4: &str = "2 VPVL, 7 FWMGM, 2 CXFTF, 11 MNCFX => 1 STKFG
17 NVRVD, 3 JNWZP => 8 VPVL
53 STKFG, 6 MNCFX, 46 VJHF, 81 HVMC, 68 CXFTF, 25 GNMV => 1 FUEL
22 VJHF, 37 MNCFX => 5 FWMGM
139 ORE => 4 NVRVD
144 ORE => 7 JNWZP
5 MNCFX, 7 RFSQX, 2 FWMGM, 2 VPVL, 19 CXFTF => 3 HVMC
5 VJHF, 7 MNCFX, 9 VPVL, 37 CXFTF => 6 GNMV
145 ORE => 6 MNCFX
1 NVRVD => 8 CXFTF
1 VJHF, 6 MNCFX => 4 RFSQX
176 ORE => 6 VJHF";

const EXAMPLE5: &str = "171 ORE => 8 CNZTR
7 ZLQW, 3 BMBT, 9 XCVML, 26 XMNCP, 1 WPTQ, 2 MZWV, 1 RJRHP => 4 PLWSL
114 ORE => 4 BHXH
14 VRPVC => 6 BMBT
6 BHXH, 18 KTJDG, 12 WPTQ, 7 PLWSL, 31 FHTLT, 37 ZDVW => 1 FUEL
6 WPTQ, 2 BMBT, 8 ZLQW, 18 KTJDG, 1 XMNCP, 6 MZWV, 1 RJRHP => 6 FHTLT
15 XDBXC, 2 LTCX, 1 VRPVC => 6 ZLQW
13 WPTQ, 10 LTCX, 3 RJRHP, 14 XMNCP, 2 MZWV, 1 ZLQW => 1 ZDVW
5 BMBT => 4 WPTQ
189 ORE => 9 KTJDG
1 MZWV, 17 XDBXC, 3 XCVML => 2 XMNCP
12 VRPVC, 27 CNZTR => 2 XDBXC
15 KTJDG, 12 BHXH => 5 XCVML
3 BHXH, 2 VRPVC => 7 MZWV
121 ORE => 7 VRPVC
7 XCVML => 6 RJRHP
5 BHXH, 4 VRPVC => 5 LTCX";

#[test]
fn day14_part1_example1() {
    assert_eq!(part1(&parse(EXAMPLE1).unwrap()).unwrap(), 31);
}

#[test]
fn day14_part1_example2() {
    assert_eq!(part1(&parse(EXAMPLE2).unwrap()).unwrap(), 165);
}

#[test]
fn day14_part1_example3() {
    assert_eq!(part1(&parse(EXAMPLE3).unwrap()).unwrap(), 13312);
}

#[test]
fn part1_example4() {
    assert_eq!(part1(&parse(EXAMPLE4).unwrap()).unwrap(), 180697);
}

#[test]
fn part1_example5() {
    assert_eq!(part1(&parse(EXAMPLE5).unwrap()).unwrap(), 2210736);
}

#[test]
fn day14_part2_example1() {
    assert_eq!(part2(&parse(EXAMPLE3).unwrap()).unwrap(), 82892753);
}

#[test]
fn day14_part2_example2() {
    assert_eq!(part2(&parse(EXAMPLE4).unwrap()).unwrap(), 5586022);
}

fn chars(s: &str) -> Vec<char> {
    s.chars().collect()
}

#[test]
fn day14_chemicals_and_recipes() {
    let chemical: Chemical = " 7 A ".parse().unwrap();
    assert_eq!(chemical.name(), &chars("A")[..]);
    assert_eq!(chemical.amount(), 7);
    let spaced: Chemical = "10  ORE".parse().unwrap();
    assert_eq!(spaced.name(), &chars(" ORE")[..]);
    assert_eq!("7A".parse::<Chemical>().unwrap_err(), ChemistryError::NoBlank);
    assert_eq!("0 A".parse::<Chemical>().unwrap_err(), ChemistryError::ZeroAmount);
    assert_eq!(
        "x A".parse::<Chemical>().unwrap_err(),
        ChemistryError::BadNumber(NumberError::InvalidDigit)
    );
    assert_eq!(
        "-1 A".parse::<Chemical>().unwrap_err(),
        ChemistryError::BadNumber(NumberError::InvalidDigit)
    );
    let recipe: Recipe = "7 A, 1 B => 2 C".parse().unwrap();
    assert_eq!(recipe.input().len(), 2);
    assert_eq!(recipe.input()[1].name(), &chars("B")[..]);
    assert_eq!(recipe.input()[0].amount(), 7);
    assert_eq!(recipe.result().name(), &chars("C")[..]);
    assert_eq!(recipe.result().amount(), 2);
    let copy = recipe.clone();
    assert_eq!(copy.input()[0].name(), &chars("A")[..]);
    assert_eq!("7 A, 1 B = 2 C".parse::<Recipe>().unwrap_err(), ChemistryError::NoArrow);
    assert_eq!("7 A, => 2 C".parse::<Recipe>().unwrap_err(), ChemistryError::NoBlank);
    assert_eq!("7 A => 0 C".parse::<Recipe>().unwrap_err(), ChemistryError::ZeroAmount);
    assert_eq!("0 A => C".parse::<Recipe>().unwrap_err(), ChemistryError::ZeroAmount);
    assert_eq!("=> 1 C".parse::<Recipe>().unwrap_err(), ChemistryError::NoBlank);
}

#[test]
fn day14_parse_skips_blank_lines_and_keeps_the_last_recipe() {
    let book = parse("\n  \n5 ORE => 1 FUEL\n\n7 ORE => 1 FUEL\n").unwrap();
    assert_eq!(book.len(), 1);
    assert_eq!(part1(&book), Ok(7));
    assert_eq!(parse("1 ORE => 1 A\nnonsense").unwrap_err(), ChemistryError::NoArrow);
}

#[test]
fn day14_reaction_errors() {
    assert_eq!(
        part1(&parse("1 A => 1 FUEL").unwrap()),
        Err(ReactionError::UnknownChemical)
    );
    assert_eq!(part1(&parse("").unwrap()), Err(ReactionError::UnknownChemical));
    assert_eq!(
        part1(&parse("18446744073709551615 ORE => 1 A\n2 A => 1 FUEL").unwrap()),
        Err(ReactionError::Overflow)
    );
    assert_eq!(
        part1(&parse("18446744073709551615 A => 1 FUEL\n2 ORE => 1 A").unwrap()),
        Err(ReactionError::Overflow)
    );
    assert_eq!(
        part1(&parse("18446744073709551615 ORE => 1 FUEL").unwrap()),
        Ok(u64::MAX)
    );
    assert_eq!(
        part2(&parse("1 A => 1 FUEL").unwrap()),
        Err(ReactionError::UnknownChemical)
    );
}

#[test]
fn day14_leftovers_are_used_first() {
    let book = parse("10 ORE => 3 A\n4 A => 1 B\n2 A, 1 B => 1 FUEL").unwrap();
    assert_eq!(part1(&book), Ok(20));
    let cheap = parse("3 ORE => 2 FUEL").unwrap();
    assert_eq!(part1(&cheap), Ok(3));
    let pair = parse("1 ORE => 1 A\n1 ORE => 1 B\n1 A, 1 B => 1 FUEL").unwrap();
    assert_eq!(part1(&pair), Ok(2));
    assert_eq!(part2(&pair), Ok(500000000000));
    let large = parse("400000000000 ORE => 1 A\n1 ORE => 1 B\n1 B, 1 A => 1 FUEL").unwrap();
    assert_eq!(part2(&large), Ok(2));
}
