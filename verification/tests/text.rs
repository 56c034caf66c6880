//! The text operations against those of the standard library.

use knocks::encoding::{to_base64, to_hex, to_hex_padded};
use knocks::text::{
    chars_of, contains, ends_with, is_ascii_alphanumeric, is_ascii_digit, is_ascii_lowercase,
    is_whitespace, join, lines, parse_i32, rfind, same, split_inclusive, starts_with, string_of,
    to_ascii_lowercase, to_decimal, trim, trim_end, trim_start,
};

/// Texts over a few characters that matter, all of them up to a length.
fn samples() -> Vec<String> {
    let alphabet = ['a', 'B', ' ', '\n', '\r', '\u{3000}', '['];
    let mut all = vec![String::new()];
    let mut last = all.clone();
    for _ in 0..4 {
        let mut next = Vec::new();
        for s in &last {
            for c in alphabet {
                next.push(format!("{s}{c}"));
            }
        }
        all.extend(next.iter().cloned());
        last = next;
    }
    all
}

#[test]
fn characters_are_classified_as_in_std() {
    for n in 0..=0x10_ffff_u32 {
        let Some(c) = char::from_u32(n) else {
            continue;
        };
        assert_eq!(is_whitespace(c), c.is_whitespace(), "{n:x}");
        assert_eq!(is_ascii_digit(c), c.is_ascii_digit(), "{n:x}");
        assert_eq!(is_ascii_lowercase(c), c.is_ascii_lowercase(), "{n:x}");
        assert_eq!(is_ascii_alphanumeric(c), c.is_ascii_alphanumeric(), "{n:x}");
    }
}

#[test]
fn texts_are_cut_as_in_std() {
    for s in samples() {
        assert_eq!(trim(&s), s.trim(), "{s:?}");
        assert_eq!(trim_start(&s), s.trim_start(), "{s:?}");
        assert_eq!(trim_end(&s), s.trim_end(), "{s:?}");
        assert_eq!(lines(&s), s.lines().collect::<Vec<_>>(), "{s:?}");
        assert_eq!(split_inclusive(&s), s.split_inclusive('\n').collect::<Vec<_>>(), "{s:?}");
        assert_eq!(to_ascii_lowercase(&s), s.to_ascii_lowercase(), "{s:?}");
        assert_eq!(chars_of(&s), s.chars().collect::<Vec<_>>(), "{s:?}");
    }
}

#[test]
fn patterns_are_found_as_in_std() {
    let patterns = ["", "a", " [", "\n", "aB", "aa", "\u{3000}a", "abcde"];
    for s in samples() {
        for p in patterns {
            assert_eq!(contains(&s, p), s.contains(p), "{s:?} {p:?}");
            assert_eq!(starts_with(&s, p), s.starts_with(p), "{s:?} {p:?}");
            assert_eq!(ends_with(&s, p), s.ends_with(p), "{s:?} {p:?}");
            assert_eq!(same(&s, p), s == p, "{s:?} {p:?}");
            let at = s.rfind(p).map(|byte| s[..byte].chars().count());
            assert_eq!(rfind(&s, p), at, "{s:?} {p:?}");
        }
    }
}

#[test]
fn integers_are_read_as_in_std() {
    let given = [
        "", "+", "-", "0", "-0", "+7", "007", "12a", " 1", "1 ", "--1", "+-1", "2147483647",
        "2147483648", "-2147483648", "-2147483649", "99999999999999999999", "-00000000000000000012",
        "１", "137",
    ];
    for s in given {
        assert_eq!(parse_i32(s), s.parse::<i32>().ok(), "{s:?}");
    }
}

#[test]
fn numbers_are_written_as_in_std() {
    for n in [0, 1, 9, 10, 99, 100, 65536, u64::MAX - 1, u64::MAX] {
        assert_eq!(to_decimal(n), n.to_string());
    }
    assert_eq!(to_hex_padded(0xabc, 6), "000abc");
    assert_eq!(to_hex_padded(0xabc, 2), "bc");
    assert_eq!(to_hex(&vec![1, 0xfe]), "01fe");
}

#[test]
fn parts_are_joined_as_in_std() {
    for parts in [vec![], vec!["a"], vec!["a", ""], vec!["", "b", "c"]] {
        let strings: Vec<String> = parts.iter().map(|s| s.to_string()).collect();
        assert_eq!(join(&strings, "--"), parts.join("--"));
    }
    assert_eq!(string_of(&vec!['a', 'b', 'c'], 1, 2), "b");
}

/// Undoes base64 as RFC 4648 describes it.
fn decode(text: &str) -> Vec<u8> {
    let table = "ABCDEFGHIJKLMNOPQRSTUVWXYZabcdefghijklmnopqrstuvwxyz0123456789+/";
    let mut bits: u32 = 0;
    let mut held = 0;
    let mut bytes = Vec::new();
    for c in text.trim_end_matches('=').chars() {
        bits = (bits << 6) | table.find(c).unwrap() as u32;
        held += 6;
        if held >= 8 {
            held -= 8;
            bytes.push((bits >> held) as u8);
            bits &= (1 << held) - 1;
        }
    }
    bytes
}

#[test]
fn base64_can_be_undone() {
    let mut bytes: Vec<u8> = Vec::new();
    for n in 0..=300_u32 {
        let text = to_base64(&bytes);
        assert_eq!(text.len(), (bytes.len() + 2) / 3 * 4);
        assert_eq!(decode(&text), bytes);
        bytes.push((n * 37 % 256) as u8);
    }
    assert_eq!(to_base64(&[0xfb, 0xff, 0xfe]), "+//+");
}
