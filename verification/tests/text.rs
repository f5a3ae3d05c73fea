use sqlite_instrument::text::{
    char_is_whitespace, chars_of, push_decimal, push_digits, push_range, string_of, trim_range,
};

#[test]
fn whitespace_is_what_std_calls_whitespace() {
    for code in 0..=0x10FFFFu32 {
        if let Some(c) = char::from_u32(code) {
            assert_eq!(char_is_whitespace(c), c.is_whitespace(), "U+{:04X}", code);
        }
    }
}

#[test]
fn chars_and_back() {
    let chars = chars_of("héllo wörld");
    assert_eq!(chars.len(), 11);
    assert_eq!(string_of(&chars, 0, chars.len()), "héllo wörld");
    assert_eq!(string_of(&chars, 6, 11), "wörld");
    assert_eq!(string_of(&chars, 3, 3), "");
}

#[test]
fn push_range_appends() {
    let chars = chars_of("abcdef");
    let mut out = vec!['x'];
    push_range(&mut out, &chars, 2, 5);
    assert_eq!(out, vec!['x', 'c', 'd', 'e']);
}

#[test]
fn trim_range_agrees_with_std_trim() {
    for text in ["", " ", "a", "  a b \t\r\n", "\u{3000}x\u{a0}", " \n ", "x  ", "  x"] {
        let chars = chars_of(text);
        let (a, b) = trim_range(&chars, 0, chars.len());
        assert_eq!(string_of(&chars, a, b), text.trim(), "text {:?}", text);
    }
}

#[test]
fn trim_range_stays_inside_its_bounds() {
    let chars = chars_of("ab  cd  ef");
    assert_eq!(trim_range(&chars, 2, 8), (4, 6));
    assert_eq!(trim_range(&chars, 2, 4), (4, 4));
}

#[test]
fn digits_of_unsigned_numbers() {
    for n in [0u128, 7, 10, 99, 100, 12345, u64::MAX as u128, u128::MAX] {
        let mut out = String::from("n=");
        push_digits(&mut out, n);
        assert_eq!(out, format!("n={}", n));
    }
}

#[test]
fn decimal_of_signed_numbers() {
    for n in [0i32, 1, -1, 2, 42, -42, i32::MAX, i32::MIN] {
        let mut out = String::new();
        push_decimal(&mut out, n);
        assert_eq!(out, n.to_string());
    }
}
