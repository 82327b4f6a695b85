use paper_cli::text::{
    chars_of, decimal_text, is_whitespace, make_ascii_lower, parse_u32, push_decimal, same_chars,
    string_of, to_ascii_lower,
};

#[test]
fn chars_and_strings_convert_both_ways() {
    assert_eq!(chars_of("aé日"), vec!['a', 'é', '日']);
    assert_eq!(chars_of(""), Vec::<char>::new());
    let chars = vec!['a', 'é', '日', 'z'];
    assert_eq!(string_of(&chars, 0, 4), "aé日z");
    assert_eq!(string_of(&chars, 1, 3), "é日");
    assert_eq!(string_of(&chars, 2, 2), "");
}

#[test]
fn same_chars_compares_characters() {
    assert!(same_chars(&vec!['g', 'e', 't'], "get"));
    assert!(!same_chars(&vec!['g', 'e', 't'], "gets"));
    assert!(!same_chars(&vec!['g', 'e', 't'], "gEt"));
    assert!(!same_chars(&vec!['g', 'e', 't'], "ge"));
    assert!(same_chars(&Vec::new(), ""));
    assert!(same_chars(&vec!['h', 'é'], "hé"));
}

#[test]
fn ascii_lower_folds_capital_letters_only() {
    for code in 0..=0x10FFFFu32 {
        if let Some(c) = char::from_u32(code) {
            assert_eq!(to_ascii_lower(c), c.to_ascii_lowercase());
        }
    }
    let mut chars = vec!['A', 'b', 'Z', 'É', '1', '['];
    make_ascii_lower(&mut chars);
    assert_eq!(chars, vec!['a', 'b', 'z', 'É', '1', '[']);
}

#[test]
fn whitespace_is_unicode_white_space() {
    let pattern = regex::Regex::new("^\\s$").unwrap();
    let mut count = 0;
    for code in 0..=0x10FFFFu32 {
        if let Some(c) = char::from_u32(code) {
            assert_eq!(is_whitespace(c), c.is_whitespace(), "for {:?}", c);
            if is_whitespace(c) {
                count += 1;
                assert!(pattern.is_match(&c.to_string()), "for {:?}", c);
            }
        }
    }
    assert_eq!(count, 25);
    assert!(!pattern.is_match("a"));
    assert!(!pattern.is_match("\u{200B}"));
}

#[test]
fn decimal_text_writes_digits() {
    assert_eq!(decimal_text(0), "0");
    assert_eq!(decimal_text(7), "7");
    assert_eq!(decimal_text(10), "10");
    assert_eq!(decimal_text(3145), "3145");
    assert_eq!(decimal_text(u64::MAX), "18446744073709551615");
    let mut out = "n=".to_string();
    push_decimal(&mut out, u128::MAX);
    assert_eq!(out, format!("n={}", u128::MAX));
}

#[test]
fn parse_u32_reads_unsigned_numerals() {
    assert_eq!(parse_u32("0"), Some(0));
    assert_eq!(parse_u32("30"), Some(30));
    assert_eq!(parse_u32("+30"), Some(30));
    assert_eq!(parse_u32("0030"), Some(30));
    assert_eq!(parse_u32("4294967295"), Some(u32::MAX));
    assert_eq!(parse_u32("4294967296"), None);
    assert_eq!(parse_u32("00000000000000000000000000000001"), Some(1));
    assert_eq!(parse_u32("99999999999999999999999999999999"), None);
    assert_eq!(parse_u32(""), None);
    assert_eq!(parse_u32("+"), None);
    assert_eq!(parse_u32("-1"), None);
    assert_eq!(parse_u32("1a"), None);
    assert_eq!(parse_u32("1+"), None);
    assert_eq!(parse_u32(" 1"), None);
    assert_eq!(parse_u32("٣"), None);
}

#[test]
fn parse_u32_agrees_with_standard_parsing() {
    let alphabet = ['+', '-', '0', '4', '9', ' '];
    let mut texts: Vec<String> = vec![String::new()];
    let mut from = 0;
    for _ in 0..5 {
        let until = texts.len();
        for i in from..until {
            for c in alphabet {
                let mut text = texts[i].clone();
                text.push(c);
                texts.push(text);
            }
        }
        from = until;
    }
    for text in &texts {
        assert_eq!(parse_u32(text), text.parse::<u32>().ok(), "for {:?}", text);
    }
    for n in [0u64, 1, 9, 10, 4294967294, 4294967295, 4294967296, 42949672950, 99999999999] {
        let text = n.to_string();
        assert_eq!(parse_u32(&text), text.parse::<u32>().ok());
    }
}
