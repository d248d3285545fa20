use robotctl::order::sort;
use robotctl::text::{
    alphanumeric, contains_control, digit, join_lines, lines, lowercase, pad, parse_number, split,
    split_once, split_whitespace, starts_with, strip_prefix, to_decimal, to_lowercase, trim,
    trim_end, uppercase, whitespace,
};

const TEXTS: [&str; 16] = [
    "",
    " ",
    "a",
    " a b ",
    "\ta\u{a0}b\u{2003}\u{3000}",
    "one\ntwo\r\nthree",
    "\n",
    "\r\n\r\n",
    "a\rb\n\rc\r",
    "x=1=2",
    "=",
    ",,a,",
    "É é ß",
    "\u{85}next\u{1680}",
    "tail\u{2028}\u{2029}",
    "ROBOT Id 09",
];

#[test]
fn characters_are_told_apart_as_std_does() {
    for code in 0..=0x10_ffffu32 {
        let Some(c) = char::from_u32(code) else {
            continue;
        };
        assert_eq!(whitespace(c), c.is_whitespace(), "{code:x}");
        assert_eq!(digit(c), c.is_ascii_digit(), "{code:x}");
        assert_eq!(lowercase(c), c.is_ascii_lowercase(), "{code:x}");
        assert_eq!(uppercase(c), c.is_ascii_uppercase(), "{code:x}");
        assert_eq!(alphanumeric(c), c.is_ascii_alphanumeric(), "{code:x}");
    }
    for code in 0..0x3000u32 {
        if let Some(c) = char::from_u32(code) {
            assert_eq!(contains_control(&format!("a{c}b")), c.is_control(), "{code:x}");
        }
    }
}

#[test]
fn strings_are_taken_apart_as_std_does() {
    for text in TEXTS {
        assert_eq!(trim(text), text.trim());
        assert_eq!(trim_end(text), text.trim_end());
        assert_eq!(lines(text), text.lines().collect::<Vec<_>>());
        assert_eq!(
            split_whitespace(text),
            text.split_whitespace().collect::<Vec<_>>()
        );
        assert_eq!(split(text, ','), text.split(',').collect::<Vec<_>>());
        assert_eq!(
            split_once(text, '='),
            text.split_once('=')
                .map(|(a, b)| (a.to_string(), b.to_string()))
        );
        assert_eq!(to_lowercase(text), text.to_ascii_lowercase());
        assert_eq!(pad(text, 12), format!("{text:<12}"));
        for prefix in TEXTS {
            assert_eq!(starts_with(text, prefix), text.starts_with(prefix));
            assert_eq!(
                strip_prefix(text, prefix),
                text.strip_prefix(prefix).map(str::to_string)
            );
        }
    }
    assert_eq!(
        join_lines(&vec!["a".to_string(), String::new()]),
        "a\n\n"
    );
}

#[test]
fn numbers_are_read_as_std_does() {
    for text in [
        "", "+", "-", "-0", "0", "00", "+7", "7 ", " 7", "255", "256", "65535", "65536", "1_0",
        "4294967295", "4294967296", "18446744073709551615", "18446744073709551616",
        "99999999999999999999999", "0x1", "\u{661}", "++1",
    ] {
        assert_eq!(
            parse_number(text, u8::MAX as u64),
            text.parse::<u8>().ok().map(u64::from),
            "{text}"
        );
        assert_eq!(
            parse_number(text, u16::MAX as u64),
            text.parse::<u16>().ok().map(u64::from),
            "{text}"
        );
        assert_eq!(
            parse_number(text, u32::MAX as u64),
            text.parse::<u32>().ok().map(u64::from),
            "{text}"
        );
        assert_eq!(parse_number(text, u64::MAX), text.parse::<u64>().ok(), "{text}");
    }
    for n in [0, 9, 10, 99, 100, 1_000_000, u64::MAX] {
        assert_eq!(to_decimal(n), n.to_string());
        assert_eq!(parse_number(&to_decimal(n), u64::MAX), Some(n));
    }
}

#[test]
fn strings_are_sorted_as_std_does() {
    let list: Vec<String> = TEXTS
        .iter()
        .chain(&["b", "a", "ab", "\u{1f600}", "\u{ffff}"])
        .map(|text| text.to_string())
        .collect();
    let mut expected = list.clone();
    expected.sort();

    assert_eq!(sort(list), expected);
}
