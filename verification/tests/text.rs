use define::decimal::{decimal_string, parse_u16, parse_u8};
use define::text::{chars_of, find_first, find_last, has_char, join, matches_at, same_chars, spells};

fn chars(text: &str) -> Vec<char> {
    text.chars().collect()
}

#[test]
fn chars_of_counts_characters_not_bytes() {
    assert_eq!(chars_of("héllo"), vec!['h', 'é', 'l', 'l', 'o']);
    assert_eq!(chars_of(""), Vec::<char>::new());
}

#[test]
fn spells_compares_whole_texts() {
    assert!(spells(&chars("abc"), "abc"));
    assert!(spells(&chars(""), ""));
    assert!(!spells(&chars("abc"), "abd"));
    assert!(!spells(&chars("abc"), "ab"));
    assert!(!spells(&chars("ab"), "abc"));
    assert!(spells(&chars("noun"), "noun"));
    assert!(!spells(&chars("noun"), "nouns"));
    assert!(same_chars(&chars("é"), &chars("é")));
    assert!(!same_chars(&chars("é"), &chars("e")));
}

#[test]
fn matches_at_checks_one_position() {
    let text = chars("abcabc");
    assert!(matches_at(&text, 0, &chars("abc")));
    assert!(matches_at(&text, 3, &chars("abc")));
    assert!(!matches_at(&text, 1, &chars("abc")));
    assert!(!matches_at(&text, 4, &chars("abc")));
    assert!(matches_at(&text, 6, &chars("")));
    assert!(!matches_at(&text, 7, &chars("")));
    assert!(!matches_at(&chars("ab"), 0, &chars("abc")));
}

#[test]
fn find_first_and_last_give_character_positions() {
    let text = chars("é<em>a</em>é<em>b</em>");
    assert_eq!(find_first(&text, &chars("<em>")), Some(1));
    assert_eq!(find_last(&text, &chars("<em>")), Some(12));
    assert_eq!(find_first(&text, &chars("</em>")), Some(6));
    assert_eq!(find_last(&text, &chars("</em>")), Some(17));
    assert_eq!(find_first(&text, &chars("<b>")), None);
    assert_eq!(find_last(&text, &chars("<b>")), None);
    assert_eq!(find_first(&chars(""), &chars("x")), None);
    assert_eq!(find_first(&chars("aaa"), &chars("aa")), Some(0));
    assert_eq!(find_last(&chars("aaa"), &chars("aa")), Some(1));
    assert_eq!(find_first(&chars("abc"), &chars("")), Some(0));
    assert_eq!(find_last(&chars("abc"), &chars("")), Some(3));
}

#[test]
fn has_char_looks_everywhere() {
    assert!(has_char(&chars("a-b"), '-'));
    assert!(has_char(&chars("-"), '-'));
    assert!(!has_char(&chars("ab"), '-'));
    assert!(!has_char(&chars(""), '-'));
}

#[test]
fn join_puts_the_separator_between() {
    let list = vec!["ahd-5".to_string(), "century".to_string(), "wiktionary".to_string()];
    assert_eq!(join(&list, ","), "ahd-5,century,wiktionary");
    assert_eq!(join(&vec!["one".to_string()], ","), "one");
    assert_eq!(join(&Vec::new(), ","), "");
    assert_eq!(join(&vec!["".to_string(), "".to_string()], "; "), "; ");
}

#[test]
fn parse_u8_reads_what_fits() {
    assert_eq!(parse_u8("0"), Some(0));
    assert_eq!(parse_u8("5"), Some(5));
    assert_eq!(parse_u8("255"), Some(255));
    assert_eq!(parse_u8("+255"), Some(255));
    assert_eq!(parse_u8("0000255"), Some(255));
    assert_eq!(parse_u8("256"), None);
    assert_eq!(parse_u8("1000"), None);
    assert_eq!(parse_u8("99999999999999999999999999"), None);
    assert_eq!(parse_u8(""), None);
    assert_eq!(parse_u8("+"), None);
    assert_eq!(parse_u8("-"), None);
    assert_eq!(parse_u8("-0"), None);
    assert_eq!(parse_u8("++1"), None);
    assert_eq!(parse_u8("1+"), None);
    assert_eq!(parse_u8(" 1"), None);
    assert_eq!(parse_u8("1_0"), None);
    assert_eq!(parse_u8("1.0"), None);
    assert_eq!(parse_u8("٣"), None);
    assert_eq!(parse_u8("x"), None);
}

#[test]
fn parse_u8_agrees_with_the_standard_library() {
    for text in ["0", "17", "255", "256", "+3", "-3", "", "+", "03", "3a", "a3", " 3", "300"] {
        assert_eq!(parse_u8(text), text.parse::<u8>().ok(), "{:?}", text);
        assert_eq!(parse_u16(text), text.parse::<u16>().ok(), "{:?}", text);
    }
}

#[test]
fn parse_u16_reads_what_fits() {
    assert_eq!(parse_u16("1950"), Some(1950));
    assert_eq!(parse_u16("65535"), Some(65535));
    assert_eq!(parse_u16("65536"), None);
    assert_eq!(parse_u16("+2000"), Some(2000));
    assert_eq!(parse_u16("two thousand"), None);
}

#[test]
fn decimal_string_has_no_leading_zeros() {
    assert_eq!(decimal_string(0), "0");
    assert_eq!(decimal_string(1), "1");
    assert_eq!(decimal_string(5), "5");
    assert_eq!(decimal_string(9), "9");
    assert_eq!(decimal_string(10), "10");
    assert_eq!(decimal_string(42), "42");
    assert_eq!(decimal_string(99), "99");
    assert_eq!(decimal_string(100), "100");
    assert_eq!(decimal_string(101), "101");
    assert_eq!(decimal_string(255), "255");
}

#[test]
fn decimal_string_and_parse_u8_undo_each_other() {
    for n in 0..=255u8 {
        assert_eq!(decimal_string(n), n.to_string());
        assert_eq!(parse_u8(&decimal_string(n)), Some(n));
    }
}
