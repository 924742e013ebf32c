use zellij_mcp::number::{decimal, parse_u64, signed_decimal, NumberError};
use zellij_mcp::text::{
    contains, is_space, lines, same, split_once, strip_prefix, strip_suffix, trim, words,
};

const SAMPLES: [&str; 16] = [
    "",
    " ",
    "abc",
    "  abc\t",
    "a b  c",
    "\u{a0}x\u{3000}y\u{2029}",
    "one\ntwo\r\nthree",
    "one\n\ntwo\n",
    "\n",
    "\r\n\r",
    "last\r",
    "a\rb\n",
    "\u{85}\u{1680}mid\u{200b}dle\u{205f}",
    "été \u{2003}à côté",
    "aaab aab",
    "x\u{b}\u{c}y",
];

#[test]
fn whitespace_is_the_unicode_property() {
    for point in 0u32..=0x10ffff {
        if let Some(c) = char::from_u32(point) {
            assert_eq!(is_space(c), c.is_whitespace(), "U+{point:04X}");
        }
    }
}

#[test]
fn trims_both_ends() {
    assert_eq!(trim(" \t main \n"), "main");
    for s in SAMPLES {
        assert_eq!(trim(s), s.trim());
    }
}

#[test]
fn splits_lines() {
    assert_eq!(lines("a\r\nb\n\nc"), vec!["a", "b", "", "c"]);
    for s in SAMPLES {
        assert_eq!(lines(s), s.lines().collect::<Vec<_>>());
    }
}

#[test]
fn splits_words() {
    assert_eq!(words(" 1h  41m 1s "), vec!["1h", "41m", "1s"]);
    for s in SAMPLES {
        assert_eq!(words(s), s.split_whitespace().collect::<Vec<_>>());
    }
}

#[test]
fn searches_and_strips() {
    let patterns = ["", "a", "aab", "b ", "\n", "two", "à", "x", " "];
    for s in SAMPLES {
        for p in patterns {
            assert_eq!(split_once(s, p), s.split_once(p), "{s:?} {p:?}");
            assert_eq!(contains(s, p), s.contains(p), "{s:?} {p:?}");
            assert_eq!(strip_prefix(s, p), s.strip_prefix(p), "{s:?} {p:?}");
            assert_eq!(strip_suffix(s, p), s.strip_suffix(p), "{s:?} {p:?}");
            assert_eq!(same(s, p), s == p);
        }
    }
    assert_eq!(split_once("a-b-c", "-"), Some(("a", "b-c")));
}

#[test]
fn reads_numbers_as_std_does() {
    let texts = [
        "0",
        "7",
        "+7",
        "007",
        "18446744073709551615",
        "+18446744073709551615",
        "18446744073709551616",
        "18446744073709551620",
        "99999999999999999999999",
        "99999999999999999999999x",
        "1844674407370955161x",
        "",
        "+",
        "-",
        "-1",
        "++1",
        "1_000",
        " 1",
        "1 ",
        "x",
        "\u{663}",
    ];
    for text in texts {
        match (parse_u64(text), text.parse::<u64>()) {
            (Ok(ours), Ok(theirs)) => assert_eq!(ours, theirs),
            (Err(ours), Err(theirs)) => assert_eq!(ours.message(), theirs.to_string(), "{text:?}"),
            (ours, theirs) => panic!("{text:?}: {ours:?} and {theirs:?}"),
        }
    }
    assert_eq!(parse_u64(""), Err(NumberError::Empty));
    assert_eq!(parse_u64("-1"), Err(NumberError::InvalidDigit));
    assert_eq!(parse_u64("18446744073709551616"), Err(NumberError::TooLarge));
}

#[test]
fn writes_numbers_as_std_does() {
    for n in [0u64, 9, 10, 42, 999, 1000, u64::MAX - 1, u64::MAX] {
        assert_eq!(decimal(n), n.to_string());
        assert_eq!(parse_u64(&decimal(n)), Ok(n));
    }
    for i in [0i32, 1, -1, 127, -128, i32::MAX, i32::MIN] {
        assert_eq!(signed_decimal(i), i.to_string());
    }
}
