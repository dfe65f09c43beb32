use orchestrator::text::{
    chars_of, decimal, lower_string_of, parse_i32, parse_u16, parse_u64, push_decimal, same,
    starts_with_at, string_of,
};

const NUMBERS: [&str; 36] = [
    "",
    "0",
    "5",
    "05",
    "000",
    "+5",
    "-5",
    "+",
    "-",
    "+-5",
    "--5",
    "++5",
    " 5",
    "5 ",
    "5a",
    "a5",
    "1_000",
    "1.0",
    "1e3",
    "0x10",
    "65535",
    "65536",
    "+65535",
    "2147483647",
    "2147483648",
    "-2147483648",
    "-2147483649",
    "4294967295",
    "18446744073709551615",
    "18446744073709551616",
    "99999999999999999999999999999999",
    "-0",
    "+0",
    "\u{0663}",
    "\u{ff11}",
    "864000",
];

#[test]
fn parse_u16_reads_what_std_reads() {
    for text in NUMBERS {
        assert_eq!(parse_u16(text), text.parse::<u16>().ok(), "of {:?}", text);
    }
}

#[test]
fn parse_i32_reads_what_std_reads() {
    for text in NUMBERS {
        assert_eq!(parse_i32(text), text.parse::<i32>().ok(), "of {:?}", text);
    }
}

#[test]
fn parse_u64_reads_what_std_reads() {
    for text in NUMBERS {
        assert_eq!(parse_u64(text, u64::MAX), text.parse::<u64>().ok(), "of {:?}", text);
    }
}

#[test]
fn parse_examples() {
    assert_eq!(parse_u16("5"), Some(5));
    assert_eq!(parse_u16("65535"), Some(65535));
    assert_eq!(parse_u16("65536"), None);
    assert_eq!(parse_u16("-1"), None);
    assert_eq!(parse_i32("42"), Some(42));
    assert_eq!(parse_i32("-2147483648"), Some(i32::MIN));
    assert_eq!(parse_i32("2147483648"), None);
    assert_eq!(parse_i32("abc"), None);
    assert_eq!(parse_u64("864000", u64::MAX), Some(864000));
    assert_eq!(parse_u64("11", 10), None);
    assert_eq!(parse_u64("10", 10), Some(10));
}

#[test]
fn decimal_writes_what_std_writes() {
    for n in [0u64, 1, 9, 10, 11, 99, 100, 101, 4294967295, 4294967296, u64::MAX] {
        assert_eq!(decimal(n), n.to_string());
        assert_eq!(parse_u64(&decimal(n), u64::MAX), Some(n));
    }
    let mut s = "job-".to_string();
    push_decimal(&mut s, 1203);
    assert_eq!(s, "job-1203");
}

#[test]
fn characters_and_back() {
    let text = "h\u{e9}llo/w\u{f6}rld";
    let chars = chars_of(text);
    assert_eq!(chars.len(), 11);
    assert_eq!(chars, text.chars().collect::<Vec<char>>());
    assert_eq!(string_of(&chars, 0, chars.len()), text);
    assert_eq!(string_of(&chars, 6, 11), "w\u{f6}rld");
    assert_eq!(string_of(&chars, 3, 3), "");
}

#[test]
fn lower_case_of_ascii_letters_only() {
    let chars = chars_of("AbC_\u{c9}Z[@`{9");
    assert_eq!(lower_string_of(&chars, 0, chars.len()), "abc_\u{c9}z[@`{9");
    assert_eq!(lower_string_of(&chars, 0, chars.len()), "AbC_\u{c9}Z[@`{9".to_ascii_lowercase());
    assert_eq!(lower_string_of(&chars, 1, 3), "bc");
}

#[test]
fn same_and_starts_with() {
    assert!(same("abc", "abc"));
    assert!(!same("abc", "abd"));
    assert!(!same("abc", "ab"));
    assert!(same("", ""));
    let v = chars_of("SERVICE_A_UPLOAD_URL");
    assert!(starts_with_at(&v, 0, &chars_of("SERVICE_")));
    assert!(starts_with_at(&v, 8, &chars_of("A_")));
    assert!(!starts_with_at(&v, 1, &chars_of("SERVICE_")));
    assert!(starts_with_at(&v, 20, &chars_of("")));
    assert!(!starts_with_at(&v, 18, &chars_of("RLX")));
}

/// Every text of at most `max` characters over `alphabet`.
fn texts(alphabet: &[char], max: usize) -> Vec<String> {
    let mut all = vec![String::new()];
    let mut last = vec![String::new()];
    for _ in 0..max {
        let mut next = Vec::new();
        for t in &last {
            for c in alphabet {
                let mut longer = t.clone();
                longer.push(*c);
                next.push(longer);
            }
        }
        all.extend(next.iter().cloned());
        last = next;
    }
    all
}

#[test]
fn parse_of_every_short_text() {
    for text in texts(&['+', '-', '0', '1', '6', '9', ' ', 'x'], 5) {
        assert_eq!(parse_u16(&text), text.parse::<u16>().ok(), "of {:?}", text);
        assert_eq!(parse_i32(&text), text.parse::<i32>().ok(), "of {:?}", text);
        assert_eq!(parse_u64(&text, u64::MAX), text.parse::<u64>().ok(), "of {:?}", text);
    }
}

#[test]
fn parse_near_the_bounds() {
    for n in [65533u64, 65534, 65535, 65536, 65537, 655350, 2147483646, 2147483647, 2147483648] {
        for sign in ["", "+", "-", "00"] {
            let text = format!("{}{}", sign, n);
            assert_eq!(parse_u16(&text), text.parse::<u16>().ok(), "of {:?}", text);
            assert_eq!(parse_i32(&text), text.parse::<i32>().ok(), "of {:?}", text);
            assert_eq!(parse_u64(&text, u64::MAX), text.parse::<u64>().ok(), "of {:?}", text);
        }
    }
    for text in [
        "18446744073709551614",
        "18446744073709551615",
        "18446744073709551616",
        "18446744073709551625",
        "184467440737095516150",
        "28446744073709551615",
        "000000000000000000000000000000018446744073709551615",
    ] {
        assert_eq!(parse_u64(text, u64::MAX), text.parse::<u64>().ok(), "of {:?}", text);
    }
}
