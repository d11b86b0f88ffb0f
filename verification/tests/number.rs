use bop::error::Error;
use bop::number::{digit, is_decimal, parse_index, skip_digits, skip_sign};
use bop::text::chars_of;

fn decimal(text: &str) -> bool {
    is_decimal(&chars_of(text))
}

fn index(text: &str) -> Result<usize, Error> {
    parse_index(&chars_of(text))
}

#[test]
fn whole_numbers_are_numbers() {
    assert!(decimal("0"));
    assert!(decimal("1"));
    assert!(decimal("007"));
    assert!(decimal("1234567890"));
    assert!(decimal("123456789012345678901234567890123456789012345678901234567890"));
}

#[test]
fn numbers_may_have_a_sign() {
    assert!(decimal("+1"));
    assert!(decimal("-1"));
    assert!(decimal("-0.5"));
    assert!(decimal("+.5"));
    assert!(!decimal("+"));
    assert!(!decimal("-"));
    assert!(!decimal("+-1"));
    assert!(!decimal("--1"));
    assert!(!decimal("1-"));
}

#[test]
fn numbers_may_have_a_decimal_point() {
    assert!(decimal("1.5"));
    assert!(decimal("1."));
    assert!(decimal(".5"));
    assert!(decimal("-2.4"));
    assert!(decimal("0.05"));
    assert!(!decimal("."));
    assert!(!decimal("-."));
    assert!(!decimal("1.2.3"));
    assert!(!decimal("1..2"));
    assert!(!decimal("1,5"));
}

#[test]
fn numbers_may_have_an_exponent() {
    assert!(decimal("1e5"));
    assert!(decimal("1E5"));
    assert!(decimal("1e+5"));
    assert!(decimal("1e-5"));
    assert!(decimal("1.5e10"));
    assert!(decimal("1.e10"));
    assert!(decimal(".5e10"));
    assert!(decimal("-.5e-10"));
    assert!(!decimal("e5"));
    assert!(!decimal(".e5"));
    assert!(!decimal("1e"));
    assert!(!decimal("1e+"));
    assert!(!decimal("1e-"));
    assert!(!decimal("1e5.0"));
    assert!(!decimal("1e5e5"));
    assert!(!decimal("1e 5"));
}

#[test]
fn other_texts_are_no_numbers() {
    assert!(!decimal(""));
    assert!(!decimal("xyz"));
    assert!(!decimal("1x"));
    assert!(!decimal("x1"));
    assert!(!decimal(" 1"));
    assert!(!decimal("1 "));
    assert!(!decimal("1_000"));
    assert!(!decimal("0x10"));
    assert!(!decimal("1f"));
    assert!(!decimal("\u{0661}"));
}

#[test]
fn digits_are_the_ten_of_ascii() {
    for c in '0'..='9' {
        assert!(digit(c));
    }
    assert!(!digit('/'));
    assert!(!digit(':'));
    assert!(!digit('a'));
    assert!(!digit('\u{0661}'));
    assert!(!digit('\u{ff11}'));
}

#[test]
fn skip_digits_stops_at_the_first_other_character() {
    let token = chars_of("123.45");
    assert_eq!(skip_digits(&token, 0), 3);
    assert_eq!(skip_digits(&token, 1), 3);
    assert_eq!(skip_digits(&token, 3), 3);
    assert_eq!(skip_digits(&token, 4), 6);
    assert_eq!(skip_digits(&token, 6), 6);
}

#[test]
fn skip_sign_steps_over_one_sign() {
    let token = chars_of("+-1");
    assert_eq!(skip_sign(&token, 0), 1);
    assert_eq!(skip_sign(&token, 1), 2);
    assert_eq!(skip_sign(&token, 2), 2);
    assert_eq!(skip_sign(&token, 3), 3);
}

#[test]
fn index_is_read_in_base_ten() {
    assert_eq!(index("0"), Ok(0));
    assert_eq!(index("1"), Ok(1));
    assert_eq!(index("12"), Ok(12));
    assert_eq!(index("1234567890"), Ok(1234567890));
    assert_eq!(index("000123"), Ok(123));
    assert_eq!(index("+42"), Ok(42));
}

#[test]
fn index_may_be_the_largest_word() {
    assert_eq!(index(&usize::MAX.to_string()), Ok(usize::MAX));
    assert_eq!(index(&format!("000{}", usize::MAX)), Ok(usize::MAX));
}

#[test]
fn index_beyond_the_largest_word_is_refused() {
    let first_too_large = format!("{}", usize::MAX as u128 + 1);
    assert_eq!(index(&first_too_large), Err(Error::IntParse));
    assert_eq!(index(&format!("{}0", usize::MAX)), Err(Error::IntParse));
    assert_eq!(
        index("99999999999999999999999999999999999999999999"),
        Err(Error::IntParse)
    );
}

#[test]
fn index_agrees_with_the_standard_parser() {
    for text in [
        "", "+", "-", "0", "+0", "-0", "-1", "1", "+1", "++1", "1+", "12a", "a12", "1 2", " 1",
        "1 ", "1.0", "1e3", "0x1", "1_0", "18446744073709551615", "18446744073709551616",
        "4294967295", "4294967296", "00000000000000000000000000001", "\u{0661}",
    ] {
        let expected = text.parse::<usize>().map_err(|_| Error::IntParse);
        assert_eq!(index(text), expected, "{:?}", text);
    }
}

#[test]
fn index_that_is_none_is_refused() {
    assert_eq!(index(""), Err(Error::IntParse));
    assert_eq!(index("+"), Err(Error::IntParse));
    assert_eq!(index("-1"), Err(Error::IntParse));
    assert_eq!(index("1x"), Err(Error::IntParse));
    assert_eq!(index("x1"), Err(Error::IntParse));
    assert_eq!(index("1.5"), Err(Error::IntParse));
}

#[test]
fn names_of_numbers_are_no_numbers() {
    for text in ["inf", "-inf", "+infinity", "nan", "NaN", "one"] {
        assert!(!decimal(text), "{:?}", text);
    }
}
