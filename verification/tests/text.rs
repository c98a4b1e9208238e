use arbiter::numbers::{decimal, decimal_i32, parse_number};
use arbiter::order::TextOrder;
use arbiter::rules::truncate::truncate_to_char_boundary;
use arbiter::text::{contains, lines, starts_with, trim};

#[test]
fn numbers_are_written_and_read_back() {
    for n in [0u64, 7, 10, 999, 4_294_967_296, u64::MAX] {
        assert_eq!(decimal(n), n.to_string());
        assert_eq!(parse_number(&decimal(n), 10, u64::MAX), Some(n));
    }
    for n in [i32::MIN, -1, 0, 19, i32::MAX] {
        assert_eq!(decimal_i32(n), n.to_string());
    }
}

#[test]
fn numbers_parse_like_the_standard_library() {
    for s in ["", "+", "+5", "-5", "0", "00f", "ffffffffffffffff", "10000000000000000", "g", " 1"] {
        assert_eq!(
            parse_number(s, 16, u64::MAX),
            u64::from_str_radix(s, 16).ok(),
            "{s}"
        );
        assert_eq!(
            parse_number(s, 10, u32::MAX as u64),
            s.parse::<u32>().ok().map(u64::from),
            "{s}"
        );
    }
}

#[test]
fn lines_split_like_the_standard_library() {
    for s in ["", "\n", "a", "a\n", "a\r\nb", "a\rb\n\nc\r", "\r\n\r\n"] {
        let expected: Vec<String> = s.lines().map(|l| l.to_string()).collect();
        assert_eq!(lines(s), expected, "{s:?}");
    }
}

#[test]
fn white_space_is_trimmed_like_the_standard_library() {
    for s in ["", "  ", "\t a b \n", "\u{3000}x\u{85}", "\u{200b}x", "x"] {
        assert_eq!(trim(s), s.trim(), "{s:?}");
    }
}

#[test]
fn substrings_are_found() {
    assert!(contains("abcabd", "abd"));
    assert!(contains("x", ""));
    assert!(contains("", ""));
    assert!(!contains("", "x"));
    assert!(!contains("abcab", "abd"));
    assert!(starts_with("火狐浏览器", "火狐"));
    assert!(!starts_with("火", "火狐"));
}

#[test]
fn cuts_fall_on_character_boundaries() {
    assert_eq!(truncate_to_char_boundary("abcdef", 3), "abc");
    assert_eq!(truncate_to_char_boundary("abc", 3), "abc");
    assert_eq!(truncate_to_char_boundary("a火b", 3), "a");
    assert_eq!(truncate_to_char_boundary("a火b", 4), "a火");
    assert_eq!(truncate_to_char_boundary("火", 0), "");
}

#[test]
fn texts_sort_by_code_point() {
    let unsorted = ["b", "a", "B", "ab", "é", "a"];
    let mut expected: Vec<String> = unsorted.iter().map(|s| s.to_string()).collect();
    let sorted = TextOrder::CodePoints.sort(expected.clone());
    expected.sort();
    assert_eq!(sorted, expected);
}

#[test]
fn white_space_is_what_unicode_lists() {
    let listed = |c: char| {
        matches!(
            c,
            '\u{9}'..='\u{d}'
                | '\u{20}'
                | '\u{85}'
                | '\u{a0}'
                | '\u{1680}'
                | '\u{2000}'..='\u{200a}'
                | '\u{2028}'
                | '\u{2029}'
                | '\u{202f}'
                | '\u{205f}'
                | '\u{3000}'
        )
    };
    for code in 0..=0x10ffffu32 {
        if let Some(c) = char::from_u32(code) {
            assert_eq!(trim(&c.to_string()).is_empty(), listed(c), "{code:x}");
        }
    }
}

#[test]
fn rankings_list_positions_in_order() {
    let items: Vec<String> = ["b", "a", "c", "a"].iter().map(|s| s.to_string()).collect();
    assert_eq!(TextOrder::CodePoints.rank_all(&items), vec![1, 3, 0, 2]);
}
