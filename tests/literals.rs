use bitcalc::{CalcError, Math};

#[test]
fn decimal_digits_read_in_base_ten() {
    assert_eq!(Math::parse_operand("22"), Ok(22));
    assert_eq!(Math::parse_operand("10"), Ok(10));
    assert_eq!(Math::parse_operand("0"), Ok(0));
    assert_eq!(Math::parse_operand("007"), Ok(7));
}

#[test]
fn prefixed_digits_read_in_base_sixteen() {
    assert_eq!(Math::parse_operand("0x22"), Ok(34));
    assert_eq!(Math::parse_operand("0x10"), Ok(16));
    assert_eq!(Math::parse_operand("0xff"), Ok(255));
    assert_eq!(Math::parse_operand("0xAb"), Ok(171));
}

#[test]
fn hex_letters_without_prefix_read_in_base_sixteen() {
    assert_eq!(Math::parse_operand("ff"), Ok(255));
    assert_eq!(Math::parse_operand("FF"), Ok(255));
    assert_eq!(Math::parse_operand("1a"), Ok(26));
}

#[test]
fn surrounding_white_space_is_trimmed() {
    assert_eq!(Math::parse_operand(" 42\t"), Ok(42));
    assert_eq!(Math::parse_operand("0x 1a "), Ok(26));
}

#[test]
fn non_digit_tokens_are_literal_errors() {
    assert_eq!(Math::parse_operand("abcg"), Err(CalcError::LiteralParseError));
    assert_eq!(Math::parse_operand(""), Err(CalcError::LiteralParseError));
    assert_eq!(Math::parse_operand("0x"), Err(CalcError::LiteralParseError));
    assert_eq!(Math::parse_operand("0xg1"), Err(CalcError::LiteralParseError));
    assert_eq!(Math::parse_operand("-1"), Err(CalcError::LiteralParseError));
    assert_eq!(Math::parse_operand("1 2"), Err(CalcError::LiteralParseError));
}

#[test]
fn largest_value_reads_and_one_more_overflows() {
    let max = format!("{}", usize::MAX);
    assert_eq!(Math::parse_operand(&max), Ok(usize::MAX));
    let past = format!("{}", usize::MAX as u128 + 1);
    assert_eq!(Math::parse_operand(&past), Err(CalcError::LiteralParseError));
    let max_hex = format!("0x{:x}", usize::MAX);
    assert_eq!(Math::parse_operand(&max_hex), Ok(usize::MAX));
    let past_hex = format!("0x1{:x}", usize::MAX);
    assert_eq!(Math::parse_operand(&past_hex), Err(CalcError::LiteralParseError));
}

#[test]
fn hexstr_to_int_reads_the_given_base() {
    assert_eq!(Math::hexstr_to_int("1f", true), Ok(31));
    assert_eq!(Math::hexstr_to_int("19", true), Ok(25));
    assert_eq!(Math::hexstr_to_int("19", false), Ok(19));
    assert_eq!(Math::hexstr_to_int("1f", false), Err(CalcError::LiteralParseError));
    assert_eq!(Math::hexstr_to_int("", false), Err(CalcError::LiteralParseError));
}

#[test]
fn check_num_classifies_tokens() {
    let (body, is_hex) = Math::check_num("0x 1a ").unwrap();
    assert_eq!(body, "1a");
    assert!(is_hex);
    let (body, is_hex) = Math::check_num("22").unwrap();
    assert_eq!(body, "22");
    assert!(!is_hex);
    let (body, is_hex) = Math::check_num("0x22").unwrap();
    assert_eq!(body, "22");
    assert!(is_hex);
    let (body, is_hex) = Math::check_num("beef").unwrap();
    assert_eq!(body, "beef");
    assert!(is_hex);
    assert_eq!(Math::check_num("xyz"), Err(CalcError::LiteralParseError));
}
