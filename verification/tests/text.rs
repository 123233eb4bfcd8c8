use aquilla::text::{
    chars_of, cut, decimal_string, drop_prefix, drop_prefixes, find, lines, number_chars,
    padded_number, parse_number, parse_u16, parse_u32, rfind_char, split, split_words, starts_with,
    starts_with_any_case, str_contains, str_same, str_starts_with, string_of, strip_of, trim,
    TextMap,
};

fn pieces(v: Vec<Vec<char>>) -> Vec<String> {
    v.iter().map(|p| string_of(p)).collect()
}

#[test]
fn text_is_trimmed_at_both_ends() {
    assert_eq!(string_of(trim(&chars_of(" \t a b \u{a0}\r\n"))), "a b");
    assert_eq!(string_of(trim(&chars_of("  \u{3000} "))), "");
    assert_eq!(string_of(trim(&chars_of("x"))), "x");
}

#[test]
fn text_is_stripped_of_a_set() {
    assert_eq!(string_of(strip_of(&chars_of("<\"a<b\">"), &['<', '>', '"'])), "a<b");
    assert_eq!(string_of(strip_of(&chars_of("<<>>"), &['<', '>'])), "");
}

#[test]
fn prefixes_are_dropped_once_or_all() {
    assert_eq!(string_of(drop_prefix(&chars_of("sip:sip:a"), "sip:")), "sip:a");
    assert_eq!(string_of(drop_prefix(&chars_of("SIP:a"), "sip:")), "SIP:a");
    assert_eq!(string_of(drop_prefixes(&chars_of("///a/b"), "/")), "a/b");
}

#[test]
fn text_is_searched() {
    assert_eq!(find(&chars_of("abcabc"), "ca"), Some(2));
    assert_eq!(find(&chars_of("abc"), ""), Some(0));
    assert_eq!(find(&chars_of("abc"), "abcd"), None);
    assert_eq!(rfind_char(&chars_of("a:b:c"), ':'), Some(3));
    assert_eq!(rfind_char(&chars_of("abc"), ':'), None);
    assert!(str_contains("one two", "e t"));
    assert!(!str_contains("one two", "et"));
    assert!(str_starts_with("BYE sip:", "BYE "));
    assert!(!str_starts_with("BY", "BYE "));
    assert!(starts_with(&chars_of("INVITE x"), "INVITE "));
    assert!(starts_with_any_case(&chars_of("CaLl-Id: 7"), "call-id:"));
    assert!(!starts_with_any_case(&chars_of("Call"), "call-id:"));
    assert!(str_same("ä", "ä"));
    assert!(!str_same("a", "ab"));
}

#[test]
fn text_is_split() {
    assert_eq!(pieces(split(&chars_of("a,b,,c"), ',')), vec!["a", "b", "", "c"]);
    assert_eq!(pieces(split(&chars_of(""), ',')), vec![""]);
    assert_eq!(pieces(split_words(&chars_of("  m=audio\t5004  RTP "))), vec!["m=audio", "5004", "RTP"]);
    assert!(split_words(&chars_of(" \t ")).is_empty());
    assert_eq!(pieces(lines(&chars_of("a\r\nb\n\nc\r"))), vec!["a", "b", "", "c\r"]);
    assert!(lines(&chars_of("")).is_empty());
}

#[test]
fn numbers_are_read() {
    assert_eq!(parse_u16(&chars_of("65535")), Some(65535));
    assert_eq!(parse_u16(&chars_of("65536")), None);
    assert_eq!(parse_u16(&chars_of("+80")), Some(80));
    assert_eq!(parse_u16(&chars_of("-80")), None);
    assert_eq!(parse_u16(&chars_of("+")), None);
    assert_eq!(parse_u16(&chars_of("")), None);
    assert_eq!(parse_u16(&chars_of(" 80")), None);
    assert_eq!(parse_u16(&chars_of("0000080")), Some(80));
    assert_eq!(parse_u32(&chars_of("4294967295")), Some(4294967295));
    assert_eq!(parse_u32(&chars_of("4294967296")), None);
    assert_eq!(parse_number(&chars_of("255"), 255), Some(255));
    assert_eq!(parse_number(&chars_of("256"), 255), None);
}

#[test]
fn numbers_are_written() {
    assert_eq!(decimal_string(0), "0");
    assert_eq!(decimal_string(u64::MAX), "18446744073709551615");
    assert_eq!(padded_number(7, 10, 2), "07");
    assert_eq!(padded_number(112, 10, 2), "112");
    assert_eq!(padded_number(0xab, 16, 8), "000000ab");
    assert_eq!(string_of(&number_chars(255, 16)), "ff");
}

#[test]
fn written_numbers_are_read_back() {
    for n in [0u64, 1, 9, 10, 99, 5060, 65535] {
        assert_eq!(parse_u16(&chars_of(&decimal_string(n))), Some(n as u16));
    }
}

#[test]
fn text_is_cut_between_characters() {
    let cut_text = |s: &str, n: usize| cut(&chars_of(s), n).map(|t| string_of(t));
    assert_eq!(cut_text("Tower North", 7), Some("Tower N".to_string()));
    assert_eq!(cut_text("Tower", 7), Some("Tower".to_string()));
    assert_eq!(cut_text("Tower", 0), Some(String::new()));
    assert_eq!(cut_text("abcdeäx", 7), Some("abcdeä".to_string()));
    assert_eq!(cut_text("abcdefäx", 7), None);
    assert_eq!(cut_text("€€€", 7), None);
    assert_eq!(cut_text("€€", 7), Some("€€".to_string()));
    assert_eq!(cut_text("𝄞𝄞", 4), Some("𝄞".to_string()));
    for (s, n) in [("abcdeäx", 7usize), ("€€", 7), ("Tower North", 7)] {
        let kept = cut_text(s, n).unwrap();
        assert_eq!(kept.len(), s.len().min(n));
    }
}

#[test]
fn text_map_keeps_the_last_value() {
    let mut m = TextMap::new();
    m.insert("a".to_string(), "1".to_string());
    m.insert("a".to_string(), "2".to_string());
    assert_eq!(m.get("a"), Some(&"2".to_string()));
    assert!(m.contains("a"));
    assert!(m.remove("a"));
    assert!(!m.remove("a"));
    assert_eq!(m.get("a"), None);
}
