use steamos_manager::number::{decimal_of, decimal_of_signed, parse_number, parse_u32, NumberError};
use steamos_manager::text::{
    chars_of, copied, ends_with, is_white, joined, lines_of, removed, same, split_of,
    split_once_of, starts_with, strip_prefix, text_of, trimmed, trimmed_end, trimmed_end_matches,
    trimmed_start, trimmed_start_matches, words_of,
};

const SAMPLES: [&str; 12] = [
    "",
    " ",
    "a",
    "a b",
    " a\tb \n",
    "a\r\nb\rc\n\n",
    "\r\n",
    "a\r",
    "=a==b=",
    "\u{a0}x\u{2003}y\u{3000}",
    "MhzMhz1MhzMhz",
    "\u{1f600} \u{e9}\u{85}z\u{200b}",
];

#[test]
fn white_space_is_unicode_white_space() {
    for point in 0..=0x10ffff {
        if let Some(c) = char::from_u32(point) {
            assert_eq!(is_white(c), c.is_whitespace(), "{point:x}");
        }
    }
}

#[test]
fn same_as_std() {
    for s in SAMPLES {
        assert_eq!(trimmed(s), s.trim());
        assert_eq!(trimmed_start(s), s.trim_start());
        assert_eq!(trimmed_end(s), s.trim_end());
        assert_eq!(lines_of(s), s.lines().collect::<Vec<_>>());
        assert_eq!(words_of(s), s.split_whitespace().collect::<Vec<_>>());
        for c in ['a', '=', '\n', ' '] {
            assert_eq!(split_of(s, c), s.split(c).collect::<Vec<_>>());
            assert_eq!(split_once_of(s, c), s.split_once(c));
            assert_eq!(removed(s, c), s.replace(c, ""));
        }
        for p in ["a", "Mhz", "=", "a b"] {
            assert_eq!(starts_with(s, p), s.starts_with(p));
            assert_eq!(ends_with(s, p), s.ends_with(p));
            assert_eq!(strip_prefix(s, p), s.strip_prefix(p));
            assert_eq!(trimmed_start_matches(s, p), s.trim_start_matches(p));
            assert_eq!(trimmed_end_matches(s, p), s.trim_end_matches(p));
        }
        for t in SAMPLES {
            assert_eq!(same(s, t), s == t);
            assert_eq!(joined(s, t), format!("{s}{t}"));
        }
        let chars = chars_of(s);
        assert_eq!(chars, s.chars().collect::<Vec<_>>());
        assert_eq!(text_of(&chars, 0, chars.len()), s);
    }
    let strings = vec![String::from("a"), String::new()];
    assert_eq!(copied(&strings), strings);
}

#[test]
fn numbers_like_std() {
    let samples = [
        "", "+", "-", "0", "7", "+7", "-7", "00012", "4294967295", "4294967296", "1x", "x1",
        "99999999999999999999x", "9999999999x", "1 ", "\u{661}", "++1",
    ];
    for s in samples {
        assert_eq!(
            parse_u32(s).map_err(|e| e.message().to_string()),
            s.parse::<u32>().map_err(|e| e.to_string()),
            "{s}"
        );
        assert_eq!(
            parse_number(s, u64::MAX).map_err(|e| e.message().to_string()),
            s.parse::<u64>().map_err(|e| e.to_string()),
            "{s}"
        );
    }
    assert_eq!(parse_number("8", 7), Err(NumberError::PosOverflow));
    assert_eq!(parse_number("7", 7), Ok(7));
    for n in [0, 9, 10, 12345678901234567890, u64::MAX] {
        assert_eq!(decimal_of(n), n.to_string());
        assert_eq!(parse_number(&decimal_of(n), u64::MAX), Ok(n));
    }
    for n in [0, -1, i32::MIN, i32::MAX] {
        assert_eq!(decimal_of_signed(n), n.to_string());
    }
}
