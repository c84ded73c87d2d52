//! Text and numbers, held against the standard library.

use quectel_webui::number::{
    decimal_text, parse_i32, parse_u32, parse_u8, parse_uint, push_hexadecimal, push_wide_decimal,
    signed_text,
};
use quectel_webui::text::{
    concat2, concat3, contains, ends_with, eq_ignore_ascii_case, find, holds, is_white, join, lines,
    split, split_whitespace, starts_with, strip_prefix, strip_suffix, trim, trim_matches,
    trim_start, trim_start_matches,
};

const SAMPLES: [&str; 22] = [
    "",
    " ",
    "OK",
    " OK\r\n",
    "\t+CSQ: 20,99 \n",
    "a,b,,c",
    ",",
    "one\ntwo\r\nthree",
    "one\n\ntwo\n",
    "\r\n\r\n",
    "tail\r",
    "a\rb\r\r\nc",
    "\"quoted\"",
    "\"\"",
    "/////",
    "/a/b",
    "中文 abc\u{3000}",
    "\u{a0}x\u{85}",
    "éé",
    "abcabc",
    "MemTotal:   1024 kB",
    "=;=",
];

#[test]
fn white_space_is_that_of_unicode() {
    for n in 0..=0x10ffffu32 {
        if let Some(c) = char::from_u32(n) {
            assert_eq!(is_white(c), c.is_whitespace(), "{:x}", n);
        }
    }
}

#[test]
fn trimming_agrees() {
    for s in SAMPLES {
        assert_eq!(trim(s), s.trim());
        assert_eq!(trim_start(s), s.trim_start());
        assert_eq!(trim_matches(s, '"'), s.trim_matches('"'));
        assert_eq!(trim_start_matches(s, '/'), s.trim_start_matches('/'));
        assert_eq!(trim(trim(s)), trim(s));
    }
}

#[test]
fn splitting_agrees() {
    for s in SAMPLES {
        assert_eq!(lines(s), s.lines().collect::<Vec<_>>());
        assert_eq!(split(s, ','), s.split(',').collect::<Vec<_>>());
        assert_eq!(split(s, '='), s.split('=').collect::<Vec<_>>());
        assert_eq!(split_whitespace(s), s.split_whitespace().collect::<Vec<_>>());
    }
}

#[test]
fn searching_agrees() {
    for s in SAMPLES {
        for p in SAMPLES {
            assert_eq!(contains(s, p), s.contains(p));
            assert_eq!(starts_with(s, p), s.starts_with(p));
            assert_eq!(ends_with(s, p), s.ends_with(p));
            assert_eq!(strip_prefix(s, p), s.strip_prefix(p));
            assert_eq!(strip_suffix(s, p), s.strip_suffix(p));
            assert_eq!(eq_ignore_ascii_case(s, p), s.eq_ignore_ascii_case(p));
            assert_eq!(find(s, p), s.find(p).map(|i| s[..i].chars().count()));
        }
    }
    assert!(eq_ignore_ascii_case("TRUE", "true"));
    assert!(!eq_ignore_ascii_case("É", "é"));
}

#[test]
fn joining_agrees() {
    let list = vec!["a".to_string(), "".to_string(), "bc".to_string()];
    assert_eq!(join(&list, ", "), list.join(", "));
    assert_eq!(join(&Vec::new(), ", "), "");
    assert_eq!(split(&join(&list, ";"), ';'), vec!["a", "", "bc"]);
    assert_eq!(concat2("a", "b"), "ab");
    assert_eq!(concat3("a", "b", "c"), "abc");
    assert!(holds(&list, "bc"));
    assert!(!holds(&list, "b"));
}

#[test]
fn reading_numbers_agrees() {
    let texts = [
        "", "+", "-", "0", "-0", "+0", "007", "255", "256", "-1", "+7", "12a", " 1", "1 ",
        "4294967295", "4294967296", "2147483647", "2147483648", "-2147483648", "-2147483649",
        "18446744073709551615", "18446744073709551616", "99999999999999999999999999", "++1", "+-1",
        "１",
    ];
    for t in texts {
        assert_eq!(parse_u8(t), t.parse::<u8>().ok(), "{}", t);
        assert_eq!(parse_u32(t), t.parse::<u32>().ok(), "{}", t);
        assert_eq!(parse_i32(t), t.parse::<i32>().ok(), "{}", t);
        assert_eq!(parse_uint(t, u64::MAX), t.parse::<u64>().ok(), "{}", t);
        assert_eq!(parse_uint(t, 65535), t.parse::<u16>().ok().map(u64::from), "{}", t);
    }
}

#[test]
fn writing_numbers_agrees() {
    for n in [0u64, 9, 10, 99, 100, 65535, 1_000_000, u64::MAX] {
        assert_eq!(decimal_text(n), n.to_string());
        let mut hex = String::new();
        push_hexadecimal(&mut hex, n);
        assert_eq!(hex, format!("{:x}", n));
    }
    for n in [0i64, -1, 1, -140, i64::MIN + 1, i64::MAX] {
        assert_eq!(signed_text(n), n.to_string());
    }
    let mut wide = String::from("n=");
    push_wide_decimal(&mut wide, u128::MAX);
    assert_eq!(wide, format!("n={}", u128::MAX));
    assert_eq!(parse_uint(&decimal_text(86400), u64::MAX), Some(86400));
    assert_eq!(parse_i32(&signed_text(-2147483648)), Some(i32::MIN));
}
