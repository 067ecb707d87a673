use yaw::text::{
    begins_with, char_is_ascii_whitespace, char_is_whitespace, chars_of, decimal, equal, scan, scan_back, slice,
    split, split_ascii_whitespace, split_once, trim, CharClass,
};

const SAMPLES: [&str; 14] = [
    "",
    " ",
    "a",
    "  a b  ",
    "\r\n",
    "GET / HTTP/1.1\r\n",
    "Host: localhost:8080\r\n",
    "\u{a0}padded\u{2003}\u{3000}",
    "a=b&c=d&a=e",
    "&&",
    "=",
    "k=v=w&x",
    "tab\tand\u{b}vertical\u{c}feed",
    "caf\u{e9} \u{1F600} end ",
];

#[test]
fn whitespace_is_what_std_calls_whitespace() {
    for code in 0u32..=0x10FFFF {
        if let Some(c) = char::from_u32(code) {
            assert_eq!(char_is_whitespace(c), c.is_whitespace());
            assert_eq!(char_is_ascii_whitespace(c), c.is_ascii_whitespace());
        }
    }
}

#[test]
fn classes_hold_their_characters() {
    assert!(CharClass::Except(':').contains('a'));
    assert!(!CharClass::Except(':').contains(':'));
    assert!(CharClass::AsciiWhitespace.contains('\t'));
    assert!(!CharClass::AsciiWhitespace.contains('\u{b}'));
    assert!(CharClass::NonAsciiWhitespace.contains('\u{b}'));
    assert!(!CharClass::NonAsciiWhitespace.contains(' '));
    assert!(CharClass::Whitespace.contains('\u{b}'));
    assert!(CharClass::Whitespace.contains('\u{2028}'));
    assert!(!CharClass::Whitespace.contains('\u{200b}'));
}

#[test]
fn trim_agrees_with_std() {
    for sample in SAMPLES {
        assert_eq!(trim(sample), sample.trim());
    }
    assert_eq!(trim("  a b \r\n"), "a b");
    assert_eq!(trim(" \t\r\n"), "");
}

#[test]
fn split_once_agrees_with_std() {
    for sample in SAMPLES {
        for delimiter in [':', '=', '?', '&', ' '] {
            let expected = sample
                .split_once(delimiter)
                .map(|(head, tail)| (head.to_string(), tail.to_string()));
            assert_eq!(split_once(sample, delimiter), expected);
        }
    }
    assert_eq!(split_once("a:b:c", ':'), Some(("a".to_string(), "b:c".to_string())));
    assert_eq!(split_once(":", ':'), Some((String::new(), String::new())));
    assert_eq!(split_once("abc", ':'), None);
}

#[test]
fn split_agrees_with_std() {
    for sample in SAMPLES {
        for delimiter in ['&', '=', ' '] {
            let expected: Vec<String> = sample.split(delimiter).map(|p| p.to_string()).collect();
            assert_eq!(split(sample, delimiter), expected);
        }
    }
    assert_eq!(split("", '&'), vec![String::new()]);
    assert_eq!(split("a&&b&", '&'), vec!["a", "", "b", ""]);
}

#[test]
fn split_ascii_whitespace_agrees_with_std() {
    for sample in SAMPLES {
        let expected: Vec<String> = sample.split_ascii_whitespace().map(|p| p.to_string()).collect();
        assert_eq!(split_ascii_whitespace(sample), expected);
    }
    assert_eq!(split_ascii_whitespace(" GET  /x\tHTTP/1.1\r\n"), vec!["GET", "/x", "HTTP/1.1"]);
    assert!(split_ascii_whitespace(" \r\n").is_empty());
    assert_eq!(split_ascii_whitespace("a\u{b}b"), vec!["a\u{b}b"]);
}

#[test]
fn decimal_agrees_with_std() {
    for n in [0usize, 1, 9, 10, 11, 99, 100, 101, 1999, 8192, 65535, 1_000_000, usize::MAX] {
        assert_eq!(decimal(n), n.to_string());
    }
    assert_eq!(decimal(0), "0");
    assert_eq!(decimal(1234567890), "1234567890");
}

#[test]
fn scan_stops_at_the_first_character_outside_the_class() {
    let chars = chars_of("  ab: c  ");
    assert_eq!(chars.len(), 9);
    assert_eq!(scan(&chars, 0, 9, CharClass::Whitespace), 2);
    assert_eq!(scan(&chars, 2, 9, CharClass::Except(':')), 4);
    assert_eq!(scan(&chars, 2, 3, CharClass::Except(':')), 3);
    assert_eq!(scan(&chars, 2, 9, CharClass::NonAsciiWhitespace), 5);
    assert_eq!(scan(&chars, 4, 4, CharClass::Except('x')), 4);
    assert_eq!(scan_back(&chars, 0, 9, CharClass::Whitespace), 7);
    assert_eq!(scan_back(&chars, 0, 7, CharClass::Whitespace), 7);
    assert_eq!(scan_back(&chars, 7, 9, CharClass::Whitespace), 7);
}

#[test]
fn chars_and_slices_count_characters_not_bytes() {
    let sample = "caf\u{e9} \u{1F600}!";
    assert_eq!(chars_of(sample), vec!['c', 'a', 'f', '\u{e9}', ' ', '\u{1F600}', '!']);
    assert_eq!(slice(sample, 3, 6), "\u{e9} \u{1F600}");
    assert_eq!(slice(sample, 7, 7), "");
    assert_eq!(slice(sample, 0, 7), sample);
}

#[test]
fn equal_compares_contents() {
    assert!(equal("", ""));
    assert!(equal("GET", "GET"));
    assert!(!equal("GET", "get"));
    assert!(!equal("GET", "GET "));
}

#[test]
fn begins_with_looks_at_the_first_character() {
    assert!(begins_with("/", '/'));
    assert!(begins_with("/a", '/'));
    assert!(!begins_with("", '/'));
    assert!(!begins_with("a/", '/'));
    assert!(begins_with("\u{e9}t\u{e9}", '\u{e9}'));
    for sample in SAMPLES {
        for first in ['/', ' ', 'a', 'G'] {
            assert_eq!(begins_with(sample, first), sample.starts_with(first));
        }
    }
}
