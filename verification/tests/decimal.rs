use jit_harness::decimal::{format_i32, parse_i32};

#[test]
fn plain_digits_are_read() {
    assert_eq!(parse_i32("0"), Some(0));
    assert_eq!(parse_i32("5"), Some(5));
    assert_eq!(parse_i32("42"), Some(42));
    assert_eq!(parse_i32("1234567890"), Some(1234567890));
}

#[test]
fn signs_are_read() {
    assert_eq!(parse_i32("-3"), Some(-3));
    assert_eq!(parse_i32("+4"), Some(4));
    assert_eq!(parse_i32("-0"), Some(0));
    assert_eq!(parse_i32("+0"), Some(0));
}

#[test]
fn leading_zeros_are_read() {
    assert_eq!(parse_i32("007"), Some(7));
    assert_eq!(parse_i32("-00012"), Some(-12));
    assert_eq!(parse_i32("00000000000000000000001"), Some(1));
}

#[test]
fn limits_are_read() {
    assert_eq!(parse_i32("2147483647"), Some(i32::MAX));
    assert_eq!(parse_i32("+2147483647"), Some(i32::MAX));
    assert_eq!(parse_i32("-2147483648"), Some(i32::MIN));
}

#[test]
fn numbers_that_do_not_fit_are_refused() {
    assert_eq!(parse_i32("2147483648"), None);
    assert_eq!(parse_i32("+2147483648"), None);
    assert_eq!(parse_i32("-2147483649"), None);
    assert_eq!(parse_i32("99999999999999999999999999"), None);
    assert_eq!(parse_i32("-99999999999999999999999999"), None);
}

#[test]
fn text_without_digits_is_refused() {
    assert_eq!(parse_i32(""), None);
    assert_eq!(parse_i32("-"), None);
    assert_eq!(parse_i32("+"), None);
    assert_eq!(parse_i32("abc"), None);
    assert_eq!(parse_i32("n"), None);
}

#[test]
fn anything_beside_sign_and_digits_is_refused() {
    assert_eq!(parse_i32(" 5"), None);
    assert_eq!(parse_i32("5 "), None);
    assert_eq!(parse_i32("5\n"), None);
    assert_eq!(parse_i32("1_000"), None);
    assert_eq!(parse_i32("--5"), None);
    assert_eq!(parse_i32("+-5"), None);
    assert_eq!(parse_i32("5-"), None);
    assert_eq!(parse_i32("1.0"), None);
    assert_eq!(parse_i32("0x10"), None);
    assert_eq!(parse_i32("12a"), None);
    assert_eq!(parse_i32("99999999999999999999999999x"), None);
}

#[test]
fn digits_of_other_scripts_are_refused() {
    assert_eq!(parse_i32("\u{0663}"), None);
    assert_eq!(parse_i32("1\u{ff12}"), None);
    assert_eq!(parse_i32("\u{2212}5"), None);
}

#[test]
fn numbers_are_written_in_decimal() {
    assert_eq!(format_i32(0), "0");
    assert_eq!(format_i32(7), "7");
    assert_eq!(format_i32(10), "10");
    assert_eq!(format_i32(100), "100");
    assert_eq!(format_i32(1234567890), "1234567890");
    assert_eq!(format_i32(-7), "-7");
    assert_eq!(format_i32(-10), "-10");
    assert_eq!(format_i32(i32::MAX), "2147483647");
    assert_eq!(format_i32(i32::MIN), "-2147483648");
}

#[test]
fn reading_inverts_writing() {
    let values = [0, 1, -1, 9, 10, 11, 99, 100, -100, 12345, -54321, i32::MAX, i32::MIN];
    for value in values {
        assert_eq!(parse_i32(&format_i32(value)), Some(value));
    }
}

#[test]
fn reading_agrees_with_the_standard_parser() {
    let texts = [
        "", "0", "-0", "+0", "1", "-1", "+1", "0009", "2147483647", "2147483648", "-2147483648",
        "-2147483649", "4294967296", "-", "+", "++1", " 1", "1 ", "1_0", "\u{0661}", "1e3", "\u{ff11}",
        "00000000002147483647", "-00000000002147483648",
    ];
    for text in texts {
        assert_eq!(parse_i32(text), text.parse::<i32>().ok());
    }
}

#[test]
fn writing_agrees_with_the_standard_formatter() {
    let mut value: i32 = i32::MIN;
    loop {
        assert_eq!(format_i32(value), value.to_string());
        match value.checked_add(16_777_259) {
            Some(next) => value = next,
            None => break,
        }
    }
    for value in -1000..1000 {
        assert_eq!(format_i32(value), value.to_string());
    }
}
