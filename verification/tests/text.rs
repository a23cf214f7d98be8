use in_the_loop::string_map::StringMap;
use in_the_loop::text::{
    chars_of, concat2, concat3, concat4, contains, i64_to_string, is_whitespace, lines, opt_str_is,
    split_once, starts_with, str_eq, str_lt, strip_prefix, trim,
};

#[test]
fn str_eq_compares_texts() {
    assert!(str_eq("failed", "failed"));
    assert!(!str_eq("failed", "failes"));
    assert!(!str_eq("failed", "fail"));
    assert!(str_eq("", ""));
    assert!(str_eq("héllo", "héllo"));
}

#[test]
fn chars_of_lists_the_characters() {
    assert_eq!(chars_of("aé…"), vec!['a', 'é', '…']);
    assert_eq!(chars_of(""), Vec::<char>::new());
}

#[test]
fn str_lt_orders_like_str() {
    let samples = ["", "a", "ab", "b", "2024-01-01T00:00:00+00:00", "2024-01-01 00:00:00", "é", "z"];
    for a in samples {
        for b in samples {
            assert_eq!(str_lt(a, b), a < b, "{a:?} < {b:?}");
        }
    }
}

#[test]
fn contains_finds_substrings_like_str() {
    assert!(contains("GitHub API error: 401 Unauthorized", "GitHub API error: 401"));
    assert!(!contains("GitHub API error: 500", "GitHub API error: 401"));
    assert!(contains("abc", ""));
    assert!(contains("", ""));
    assert!(!contains("", "a"));
    assert!(contains("xxabxx", "ab"));
    assert!(!contains("ab", "abc"));
}

#[test]
fn prefixes() {
    assert!(starts_with("item:42", "item:"));
    assert!(!starts_with("ite", "item:"));
    assert_eq!(strip_prefix("item:42", "item:"), Some("42"));
    assert_eq!(strip_prefix("n/home/é", "n"), Some("/home/é"));
    assert_eq!(strip_prefix("x", "n"), None);
}

#[test]
fn split_once_cuts_at_the_first_separator() {
    assert_eq!(split_once("key: value: more", ": "), Some(("key", "value: more")));
    assert_eq!(split_once("key:value", ": "), None);
    assert_eq!(split_once(": v", ": "), Some(("", "v")));
    assert_eq!(split_once("k: ", ": "), Some(("k", "")));
    for s in ["a: b", "a:b", "é: ü: x", "", ": "] {
        assert_eq!(split_once(s, ": "), s.split_once(": "));
    }
}

#[test]
fn trim_agrees_with_str_trim() {
    for s in ["  a b \t\n", "", "   ", "x", "\u{a0}x\u{3000}", " é ", "\r\nabc\r\n"] {
        assert_eq!(trim(s), s.trim());
    }
}

#[test]
fn lines_agree_with_str_lines() {
    for s in ["", "a", "a\n", "a\nb", "a\r\nb\r\n", "a\r", "\n", "\n\n", "a\n\nb", "\r\n", "a\rb\n", "é\nü"] {
        let expected: Vec<&str> = s.lines().collect();
        assert_eq!(lines(s), expected, "{s:?}");
    }
}

#[test]
fn concat_joins() {
    assert_eq!(concat2("a", "b"), "ab");
    assert_eq!(concat3("a", "", "c"), "ac");
    assert_eq!(concat4("a", "b", "c", "d"), "abcd");
}

#[test]
fn opt_str_is_compares() {
    assert!(opt_str_is(&Some("x".to_string()), "x"));
    assert!(!opt_str_is(&Some("x".to_string()), "y"));
    assert!(!opt_str_is(&None, ""));
}

#[test]
fn string_map_stores_and_replaces() {
    let mut m = StringMap::new();
    assert!(m.get("a").is_none());
    m.insert("a".to_string(), "1".to_string());
    m.insert("b".to_string(), "2".to_string());
    m.insert("a".to_string(), "3".to_string());
    assert_eq!(m.get("a").unwrap(), "3");
    assert_eq!(m.get("b").unwrap(), "2");
    assert!(m.contains_key("b"));
    assert!(!m.contains_key("c"));
    let mut keys = m.keys();
    keys.sort();
    assert_eq!(keys, vec!["a".to_string(), "b".to_string()]);
    let copy = m.clone();
    assert_eq!(copy.get("a").unwrap(), "3");
}

#[test]
fn integers_are_written_in_decimal() {
    assert_eq!(i64_to_string(0), "0");
    assert_eq!(i64_to_string(7), "7");
    assert_eq!(i64_to_string(10), "10");
    assert_eq!(i64_to_string(-1), "-1");
    assert_eq!(i64_to_string(1_000_000_007), "1000000007");
    assert_eq!(i64_to_string(-909), "-909");
    assert_eq!(i64_to_string(i64::MAX), "9223372036854775807");
    assert_eq!(i64_to_string(i64::MIN), "-9223372036854775808");
    for n in [-120i64, -99, -10, -9, 9, 99, 100, 101, 4096, 1234567890123] {
        assert_eq!(i64_to_string(n), n.to_string());
    }
}

#[test]
fn white_space_is_the_unicode_property() {
    for n in 0..=0x10FFFFu32 {
        if let Some(c) = char::from_u32(n) {
            assert_eq!(is_whitespace(c), c.is_whitespace(), "U+{n:04X}");
        }
    }
    let mut s = String::new();
    for n in 0..=0x3100u32 {
        if let Some(c) = char::from_u32(n) {
            s.clear();
            s.push(c);
            s.push('x');
            s.push(c);
            assert_eq!(trim(&s), s.trim(), "U+{n:04X}");
        }
    }
}
