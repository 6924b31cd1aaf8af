use psr::format::{decimal, format_duration, push_decimal};
use psr::text::{chars_of, contains_chars, is_whitespace, parse_count, text_less, trim};

#[test]
fn whitespace_matches_the_standard_library() {
    let mut c = 0u32;
    while c <= 0x3100 {
        if let Some(ch) = char::from_u32(c) {
            assert_eq!(is_whitespace(ch), ch.is_whitespace(), "U+{:04X}", c);
        }
        c += 1;
    }
    assert!(!is_whitespace('\u{FEFF}'));
    assert!(!is_whitespace('\u{200B}'));
}

#[test]
fn trim_removes_surrounding_whitespace() {
    assert_eq!(trim("  root \n"), "root");
    assert_eq!(trim("root"), "root");
    assert_eq!(trim("\t a b \r\n"), "a b");
    assert_eq!(trim(""), "");
    assert_eq!(trim(" \n\t "), "");
    assert_eq!(trim("\u{3000}é\u{00A0}"), "é");
}

#[test]
fn trim_agrees_with_the_standard_library() {
    for s in ["", " ", "x", " x", "x ", "  x  y  ", "\n\n", "\u{2003}ab\u{2003}", "ü ö"] {
        assert_eq!(trim(s), s.trim());
    }
}

#[test]
fn parse_count_reads_decimal() {
    assert_eq!(parse_count("0"), Some(0));
    assert_eq!(parse_count("12"), Some(12));
    assert_eq!(parse_count("007"), Some(7));
    assert_eq!(parse_count("+5"), Some(5));
}

#[test]
fn parse_count_rejects_other_text() {
    assert_eq!(parse_count(""), None);
    assert_eq!(parse_count("+"), None);
    assert_eq!(parse_count("-1"), None);
    assert_eq!(parse_count("1 2"), None);
    assert_eq!(parse_count(" 1"), None);
    assert_eq!(parse_count("1a"), None);
    assert_eq!(parse_count("++1"), None);
    assert_eq!(parse_count("1+"), None);
    assert_eq!(parse_count("٣"), None);
}

#[test]
fn parse_count_rejects_overflow() {
    let max = usize::MAX.to_string();
    assert_eq!(parse_count(&max), Some(usize::MAX));
    let mut over = max.clone();
    over.push('0');
    assert_eq!(parse_count(&over), None);
    assert_eq!(parse_count("99999999999999999999999999"), None);
    assert_eq!(parse_count("9999999999999999999999999x"), None);
}

#[test]
fn parse_count_agrees_with_the_standard_library() {
    for s in ["", "+", "0", "+0", "-0", "42", "18446744073709551615", "18446744073709551616", "1_0"] {
        assert_eq!(parse_count(s), s.parse::<usize>().ok(), "{:?}", s);
    }
}

#[test]
fn chars_of_lists_the_characters() {
    assert_eq!(chars_of("aé€"), vec!['a', 'é', '€']);
    assert!(chars_of("").is_empty());
}

#[test]
fn contains_chars_finds_runs() {
    let hay = chars_of("systemd-journal");
    assert!(contains_chars(&hay, &chars_of("")));
    assert!(contains_chars(&hay, &chars_of("sys")));
    assert!(contains_chars(&hay, &chars_of("journal")));
    assert!(contains_chars(&hay, &chars_of("d-j")));
    assert!(contains_chars(&hay, &chars_of("systemd-journal")));
    assert!(!contains_chars(&hay, &chars_of("systemd-journald")));
    assert!(!contains_chars(&hay, &chars_of("sysd")));
    assert!(contains_chars(&chars_of(""), &chars_of("")));
    assert!(!contains_chars(&chars_of(""), &chars_of("a")));
    assert!(contains_chars(&chars_of("aab"), &chars_of("ab")));
}

#[test]
fn text_less_orders_by_bytes() {
    assert!(text_less("a", "b"));
    assert!(!text_less("b", "a"));
    assert!(!text_less("a", "a"));
    assert!(text_less("", "a"));
    assert!(!text_less("a", ""));
    assert!(!text_less("", ""));
    assert!(text_less("ab", "abc"));
    assert!(text_less("Z", "a"));
    assert!(text_less("z", "é"));
}

#[test]
fn text_less_agrees_with_the_standard_library() {
    let words = ["", "a", "A", "ab", "abc", "b", "é", "zz", "10", "9"];
    for x in words {
        for y in words {
            assert_eq!(text_less(x, y), x < y, "{:?} {:?}", x, y);
        }
    }
}

#[test]
fn decimal_writes_numbers() {
    assert_eq!(decimal(0), "0");
    assert_eq!(decimal(7), "7");
    assert_eq!(decimal(10), "10");
    assert_eq!(decimal(4294967295), "4294967295");
    assert_eq!(decimal(u64::MAX), "18446744073709551615");
}

#[test]
fn push_decimal_appends() {
    let mut s = String::from("pid ");
    push_decimal(&mut s, 1234);
    assert_eq!(s, "pid 1234");
}

#[test]
fn format_duration_below_a_minute() {
    assert_eq!(format_duration(0), "0s");
    assert_eq!(format_duration(59), "59s");
}

#[test]
fn format_duration_below_an_hour() {
    assert_eq!(format_duration(60), "1m 0s");
    assert_eq!(format_duration(61), "1m 1s");
    assert_eq!(format_duration(3599), "59m 59s");
}

#[test]
fn format_duration_with_hours() {
    assert_eq!(format_duration(3600), "1h 0m 0s");
    assert_eq!(format_duration(3661), "1h 1m 1s");
    assert_eq!(format_duration(90061), "25h 1m 1s");
}
