use powerplan::text::{
    chars_eq_ignore_ascii_case, contains_chars, join_strings, parse_decimal_u32, parse_hex_u32,
    push_decimal, push_signed_decimal, split_lines, to_chars, trim_str, white_space,
};

fn chars(s: &str) -> Vec<char> {
    s.chars().collect()
}

fn lines_of(s: &str) -> Vec<String> {
    split_lines(&to_chars(s)).into_iter().map(|l| l.into_iter().collect()).collect()
}

#[test]
fn lines_split_like_str_lines() {
    for text in [
        "",
        "a",
        "a\n",
        "a\nb",
        "a\r\nb\r\n",
        "a\r",
        "\n\n",
        "x\r\r\ny",
        "\r\n",
        "no newline at end\r",
    ] {
        let expected: Vec<String> = text.lines().map(|l| l.to_string()).collect();
        assert_eq!(lines_of(text), expected, "text {:?}", text);
    }
}

#[test]
fn trim_matches_str_trim() {
    for text in ["", "  a b  ", "\u{3000}x\u{a0}", "\t\r\n", "x", " \u{85}y\u{2029} "] {
        assert_eq!(trim_str(text), text.trim(), "text {:?}", text);
    }
}

#[test]
fn white_space_matches_char_is_whitespace() {
    for code in 0..0x11_0000u32 {
        if let Some(c) = char::from_u32(code) {
            assert_eq!(white_space(c), c.is_whitespace(), "char {:?}", c);
        }
    }
}

#[test]
fn hex_parsing() {
    assert_eq!(parse_hex_u32(&chars("0")), Some(0));
    assert_eq!(parse_hex_u32(&chars("ff")), Some(255));
    assert_eq!(parse_hex_u32(&chars("FFFFFFFF")), Some(u32::MAX));
    assert_eq!(parse_hex_u32(&chars("000000064")), Some(100));
    assert_eq!(parse_hex_u32(&chars("100000000")), None);
    assert_eq!(parse_hex_u32(&chars("")), None);
    assert_eq!(parse_hex_u32(&chars("1g")), None);
}

#[test]
fn decimal_parsing() {
    assert_eq!(parse_decimal_u32(&chars("2")), Some(2));
    assert_eq!(parse_decimal_u32(&chars("4294967295")), Some(u32::MAX));
    assert_eq!(parse_decimal_u32(&chars("4294967296")), None);
    assert_eq!(parse_decimal_u32(&chars("")), None);
    assert_eq!(parse_decimal_u32(&chars("\u{663}")), None);
}

#[test]
fn decimal_formatting() {
    let mut s = String::new();
    push_decimal(&mut s, 0);
    assert_eq!(s, "0");
    let mut s = String::from("t=");
    push_decimal(&mut s, 1_725_029_869);
    assert_eq!(s, "t=1725029869");
    let mut s = String::new();
    push_decimal(&mut s, u64::MAX);
    assert_eq!(s, u64::MAX.to_string());
    for n in [0, 7, -1, -2147483648, 2147483647, 1060] {
        let mut s = String::new();
        push_signed_decimal(&mut s, n);
        assert_eq!(s, n.to_string());
    }
}

#[test]
fn ascii_case_and_search() {
    assert!(chars_eq_ignore_ascii_case(&chars("RUNNING"), &chars("running")));
    assert!(!chars_eq_ignore_ascii_case(&chars("RUNNİNG"), &chars("running")));
    assert!(!chars_eq_ignore_ascii_case(&chars("RUN"), &chars("running")));
    assert!(contains_chars(&chars("error 1060 here"), &chars("1060")));
    assert!(contains_chars(&chars("abc"), &chars("")));
    assert!(!contains_chars(&chars("ab"), &chars("abc")));
}

#[test]
fn joining() {
    let parts = vec!["query".to_string(), "LITSSVC".to_string()];
    assert_eq!(join_strings(&parts, " "), "query LITSSVC");
    assert_eq!(join_strings(&Vec::new(), " "), "");
    assert_eq!(join_strings(&vec!["one".to_string()], " "), "one");
}
