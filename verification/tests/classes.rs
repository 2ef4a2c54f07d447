use powerplan::classes::decimal_number;

#[test]
fn decimal_number_matches_unicode_digit_class() {
    let digit = regex::Regex::new(r"^\d$").unwrap();
    let mut buf = [0u8; 4];
    for code in 0..0x11_0000u32 {
        if let Some(c) = char::from_u32(code) {
            let s = c.encode_utf8(&mut buf);
            assert_eq!(decimal_number(c), digit.is_match(s), "char {:?}", c);
        }
    }
}
