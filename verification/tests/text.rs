use intcode_vm::number::{parse_i64, parse_integer, parse_u64, NumberError};
use intcode_vm::text::{
    chars_of, find, lines, slice_of, split, split_once, strip_prefix, trim,
    trim_end_matches, trim_start_matches, white_space,
};

fn chars(s: &str) -> Vec<char> {
    s.chars().collect()
}

fn texts(pieces: Vec<Vec<char>>) -> Vec<String> {
    pieces.into_iter().map(|p| p.into_iter().collect()).collect()
}

#[test]
fn text_chars_of_keeps_every_character() {
    assert_eq!(chars_of(""), Vec::<char>::new());
    assert_eq!(chars_of("a⯀b"), vec!['a', '⯀', 'b']);
}

#[test]
fn text_split_gives_one_piece_more_than_separators() {
    for text in ["", ",", "a", "a,b", ",a,,b,", "1,0,0,3,99"] {
        let expected: Vec<String> = text.split(',').map(str::to_owned).collect();
        assert_eq!(texts(split(&chars(text), ',')), expected, "{:?}", text);
    }
}

#[test]
fn text_lines_end_at_line_feeds() {
    for text in [
        "",
        "\n",
        "a",
        "a\n",
        "a\nb",
        "a\r\nb\r\n",
        "a\rb\n",
        "a\n\nb",
        "\r\n",
        "a\r",
        "\n\n",
        "a\r\r\n",
    ] {
        let expected: Vec<String> = text.lines().map(str::to_owned).collect();
        assert_eq!(texts(lines(&chars(text))), expected, "{:?}", text);
    }
}

#[test]
fn text_white_space_is_what_the_standard_library_calls_so() {
    let mut c = '\0';
    loop {
        assert_eq!(white_space(c), c.is_whitespace(), "{:?}", c);
        if c == char::MAX {
            break;
        }
        c = char::from_u32(c as u32 + 1).unwrap_or('\u{e000}');
    }
}

#[test]
fn text_trim_removes_white_space_at_both_ends() {
    for text in ["", " ", "a", "  a b \t\n", "\u{3000}x\u{85}", " \u{feff} "] {
        let expected: String = text.trim().to_owned();
        assert_eq!(trim(&chars(text)).into_iter().collect::<String>(), expected);
    }
    assert_eq!(trim_start_matches(&chars("<<a<"), '<'), chars("a<"));
    assert_eq!(trim_end_matches(&chars(">a>>"), '>'), chars(">a"));
    assert_eq!(trim_start_matches(&chars("<<"), '<'), chars(""));
    assert_eq!(trim_end_matches(&chars(""), '>'), chars(""));
}

#[test]
fn text_prefixes_and_first_separators() {
    assert_eq!(strip_prefix(&chars("x=12"), &chars("x=")), Some(chars("12")));
    assert_eq!(strip_prefix(&chars("x=12"), &chars("")), Some(chars("x=12")));
    assert_eq!(strip_prefix(&chars("x"), &chars("x=")), None);
    assert_eq!(strip_prefix(&chars("y=12"), &chars("x=")), None);
    assert_eq!(find(&chars("a-b-c"), '-'), 1);
    assert_eq!(find(&chars("abc"), '-'), 3);
    assert_eq!(
        split_once(&chars("a-b-c"), '-'),
        Some((chars("a"), chars("b-c")))
    );
    assert_eq!(split_once(&chars("-"), '-'), Some((chars(""), chars(""))));
    assert_eq!(split_once(&chars("abc"), '-'), None);
    assert_eq!(slice_of(&chars("abcdef"), 2, 4), chars("cd"));
    assert_eq!(slice_of(&chars("abcdef"), 6, 6), chars(""));
}

#[test]
fn number_parsing_agrees_with_the_standard_library() {
    let kind = |e: &std::num::ParseIntError| match e.kind() {
        std::num::IntErrorKind::Empty => NumberError::Empty,
        std::num::IntErrorKind::InvalidDigit => NumberError::InvalidDigit,
        std::num::IntErrorKind::PosOverflow => NumberError::PosOverflow,
        std::num::IntErrorKind::NegOverflow => NumberError::NegOverflow,
        other => panic!("{:?}", other),
    };
    for text in [
        "",
        "0",
        "-0",
        "+0",
        "007",
        "+",
        "-",
        "+-1",
        "--1",
        "1-",
        " 1",
        "1 ",
        "12a",
        "a12",
        "9223372036854775807",
        "9223372036854775808",
        "-9223372036854775808",
        "-9223372036854775809",
        "18446744073709551615",
        "18446744073709551616",
        "99999999999999999999999999999999999999999",
        "-99999999999999999999999999999999999999999",
        "99999999999999999999999999999999999999999x",
        "x99999999999999999999999999999999999999999",
        "2147483647",
        "2147483648",
        "-2147483648",
        "-2147483649",
        "4294967295",
        "4294967296",
        "١٢",
        "1_000",
    ] {
        let signed = text.parse::<i64>();
        assert_eq!(
            parse_i64(&chars(text)),
            signed.as_ref().map(|v| *v).map_err(kind),
            "{:?}",
            text
        );
        let unsigned = text.parse::<u64>();
        assert_eq!(
            parse_u64(&chars(text)),
            unsigned.as_ref().map(|v| *v).map_err(kind),
            "{:?}",
            text
        );
        let narrow = text.parse::<i32>();
        assert_eq!(
            parse_integer(&chars(text), i32::MIN as i128, i32::MAX as i128),
            narrow.as_ref().map(|v| *v as i128).map_err(kind),
            "{:?}",
            text
        );
        let small = text.parse::<u32>();
        assert_eq!(
            parse_integer(&chars(text), 0, u32::MAX as i128),
            small.as_ref().map(|v| *v as i128).map_err(kind),
            "{:?}",
            text
        );
    }
}
