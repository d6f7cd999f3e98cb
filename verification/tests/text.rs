use ocr_translate::number::{
    parse_bool, parse_i32, parse_u32, parse_u64, parse_usize, render_i32, render_u32, render_u64,
    render_usize,
};
use ocr_translate::text::{
    contains, ends_with, is_blank, join, replace, split, split_lines, split_list, split_words,
    strip_prefix, trim, trim_trailing, Delimiter,
};
use ocr_translate::text_order::stands_before;

#[test]
fn trim_drops_outer_white_space() {
    assert_eq!(trim(" \u{3000}a b\n"), "a b");
    assert_eq!(trim("\u{85}\u{2028}\t\r"), "");
}

#[test]
fn trim_agrees_with_the_standard_library() {
    let mut sample = String::from("x");
    for code in 0u32..0x3100 {
        if let Some(c) = char::from_u32(code) {
            sample.clear();
            sample.push(c);
            sample.push('x');
            sample.push(c);
            assert_eq!(trim(&sample), sample.trim());
            assert_eq!(is_blank(&c.to_string()), c.to_string().trim().is_empty());
        }
    }
}

#[test]
fn trimming_twice_is_trimming_once() {
    let once = trim("  a  ");
    assert_eq!(trim(&once), once);
}

#[test]
fn trailing_copies_go() {
    assert_eq!(trim_trailing("http://a//", '/'), "http://a");
    assert_eq!(trim_trailing("///", '/'), "");
}

#[test]
fn prefixes_suffixes_and_parts() {
    assert!(ends_with("key:fx", ":fx"));
    assert!(!ends_with("fx", ":fx"));
    assert!(contains("NotoSansCJK", "Sans"));
    assert!(!contains("Noto", "Sans"));
    assert!(contains("anything", ""));
    assert_eq!(strip_prefix("file:///tmp/a", "file://").as_deref(), Some("/tmp/a"));
    assert_eq!(strip_prefix("http://a", "file://"), None);
}

#[test]
fn replace_goes_left_to_right() {
    assert_eq!(replace("aaa", "aa", "b"), "ba");
    assert_eq!(replace("{x}{x}", "{x}", "{x}"), "{x}{x}");
    assert_eq!(replace("none", "{text}", "t"), "none");
}

#[test]
fn split_and_join_are_inverse() {
    let parts = split("a,,b", Delimiter::Char(','));
    assert_eq!(parts, vec!["a", "", "b"]);
    assert_eq!(join(&parts, ","), "a,,b");
    assert_eq!(split("", Delimiter::Char(',')), vec![""]);
    assert_eq!(split("a+b-c", Delimiter::OneOf('+', '-')), vec!["a", "b", "c"]);
}

#[test]
fn lists_survive_joining_and_reading() {
    let names = vec!["google".to_string(), "open ai".to_string()];
    assert_eq!(split_list(&join(&names, ", ")), names);
    assert_eq!(split_list(" a , ,b,"), vec!["a", "b"]);
    assert!(split_list("").is_empty());
}

#[test]
fn words_and_lines() {
    assert_eq!(split_words("  a\n b\tc "), vec!["a", "b", "c"]);
    assert_eq!(split_lines("a\r\nb\n\nc"), vec!["a", "b", "", "c"]);
    assert_eq!(split_lines("a\n"), vec!["a"]);
    assert!(split_lines("").is_empty());
    assert_eq!(split_lines("a\r"), "a\r".lines().collect::<Vec<_>>());
}

#[test]
fn numbers_survive_writing_and_reading() {
    for n in [0u64, 9, 10, 12345, u64::MAX] {
        assert_eq!(render_u64(n), n.to_string());
        assert_eq!(parse_u64(&render_u64(n)), Some(n));
    }
    for n in [i32::MIN, -1, 0, 7, i32::MAX] {
        assert_eq!(render_i32(n), n.to_string());
        assert_eq!(parse_i32(&render_i32(n)), Some(n));
    }
    assert_eq!(render_u32(u32::MAX), "4294967295");
    assert_eq!(parse_u32("4294967295"), Some(u32::MAX));
    assert_eq!(parse_usize(&render_usize(usize::MAX)), Some(usize::MAX));
}

#[test]
fn unreadable_numbers_are_none() {
    for s in ["", "+", "-", "1a", " 1", "18446744073709551616", "-1", "1_0"] {
        assert_eq!(parse_u64(s), s.parse::<u64>().ok(), "{s}");
    }
    for s in ["", "-", "+5", "-0", "2147483648", "-2147483648", "-2147483649", "--1"] {
        assert_eq!(parse_i32(s), s.parse::<i32>().ok(), "{s}");
    }
    assert_eq!(parse_u32("4294967296"), None);
    assert_eq!(parse_bool("true"), Some(true));
    assert_eq!(parse_bool("false"), Some(false));
    assert_eq!(parse_bool("True"), None);
}

#[test]
fn order_of_texts_is_that_of_the_standard_library() {
    let samples = ["", "a", "ab", "b", "A", "é", "日本", "z\u{10000}", "z\u{ffff}"];
    for a in samples {
        for b in samples {
            assert_eq!(stands_before(a, b), a < b, "{a} {b}");
        }
    }
}
