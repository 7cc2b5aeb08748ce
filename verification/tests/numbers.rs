use midilog::decimal::{append_decimal, decimal_string, parse_number, NumberError};

fn std_outcome(text: &str) -> Result<usize, String> {
    text.parse::<usize>().map_err(|e| e.to_string())
}

fn our_outcome(text: &str) -> Result<usize, String> {
    parse_number(text).map_err(|e| e.message())
}

#[test]
fn numerals_of_small_and_large_numbers() {
    assert_eq!(decimal_string(0), "0");
    assert_eq!(decimal_string(7), "7");
    assert_eq!(decimal_string(10), "10");
    assert_eq!(decimal_string(144), "144");
    assert_eq!(decimal_string(1_000_000), "1000000");
    assert_eq!(decimal_string(u64::MAX), "18446744073709551615");
}

#[test]
fn numerals_agree_with_the_standard_library() {
    let mut n: u64 = 0;
    let mut step: u64 = 1;
    while n < u64::MAX / 3 {
        assert_eq!(decimal_string(n), n.to_string());
        n += step;
        step = step * 3 + 1;
    }
    for n in 0..2000u64 {
        assert_eq!(decimal_string(n), n.to_string());
    }
}

#[test]
fn append_decimal_keeps_what_is_there() {
    let mut out = String::from("len = ");
    append_decimal(&mut out, 42);
    assert_eq!(out, "len = 42");
    append_decimal(&mut out, 0);
    assert_eq!(out, "len = 420");
}

#[test]
fn parse_reads_plain_numerals() {
    assert_eq!(parse_number("0"), Ok(0));
    assert_eq!(parse_number("1"), Ok(1));
    assert_eq!(parse_number("42"), Ok(42));
    assert_eq!(parse_number("1234567890"), Ok(1234567890));
}

#[test]
fn parse_accepts_a_plus_sign_and_leading_zeros() {
    assert_eq!(parse_number("+5"), Ok(5));
    assert_eq!(parse_number("007"), Ok(7));
    assert_eq!(parse_number("+000"), Ok(0));
    assert_eq!(parse_number("00000000000000000000000000000000000000012"), Ok(12));
}

#[test]
fn parse_rejects_the_empty_text() {
    assert_eq!(parse_number(""), Err(NumberError::Empty));
}

#[test]
fn parse_rejects_what_is_not_a_digit() {
    assert_eq!(parse_number("x"), Err(NumberError::InvalidDigit));
    assert_eq!(parse_number("+"), Err(NumberError::InvalidDigit));
    assert_eq!(parse_number("-"), Err(NumberError::InvalidDigit));
    assert_eq!(parse_number("-1"), Err(NumberError::InvalidDigit));
    assert_eq!(parse_number("++1"), Err(NumberError::InvalidDigit));
    assert_eq!(parse_number("1 "), Err(NumberError::InvalidDigit));
    assert_eq!(parse_number(" 1"), Err(NumberError::InvalidDigit));
    assert_eq!(parse_number("1.5"), Err(NumberError::InvalidDigit));
    assert_eq!(parse_number("12a"), Err(NumberError::InvalidDigit));
    assert_eq!(parse_number("\u{0661}"), Err(NumberError::InvalidDigit));
    assert_eq!(parse_number("\u{ff11}"), Err(NumberError::InvalidDigit));
}

#[test]
fn parse_knows_the_largest_number() {
    let largest = usize::MAX.to_string();
    assert_eq!(parse_number(&largest), Ok(usize::MAX));
    let mut beyond = largest.clone();
    let last = beyond.pop().unwrap();
    beyond.push(char::from_u32(last as u32 + 1).unwrap());
    assert_eq!(parse_number(&beyond), Err(NumberError::TooLarge));
    let longer = format!("{}0", largest);
    assert_eq!(parse_number(&longer), Err(NumberError::TooLarge));
}

#[test]
fn parse_reports_the_first_fault_from_the_left() {
    assert_eq!(parse_number("99999999999999999999999999x"), Err(NumberError::TooLarge));
    assert_eq!(parse_number("9x9999999999999999999999999"), Err(NumberError::InvalidDigit));
}

#[test]
fn parse_agrees_with_the_standard_library() {
    let largest = usize::MAX.to_string();
    let longer = format!("{}1", largest);
    let stray_after_overflow = format!("{}1x", largest);
    let stray_before_overflow = format!("x{}1", largest);
    let samples = [
        "",
        "0",
        "9",
        "10",
        "+",
        "-",
        "+0",
        "-0",
        "+-1",
        "++1",
        "1+",
        "0x10",
        "1e3",
        "1_000",
        " 1",
        "1 ",
        "1\n",
        "\u{0661}",
        "12\u{00e9}",
        "0000000000000000000000000000000000000000000000000000000001",
        "99999999999999999999999999999999999999",
        "99999999999999999999999999999999999999x",
        largest.as_str(),
        longer.as_str(),
        stray_after_overflow.as_str(),
        stray_before_overflow.as_str(),
    ];
    for sample in samples {
        assert_eq!(our_outcome(sample), std_outcome(sample), "on {:?}", sample);
    }
}

#[test]
fn parse_reads_back_every_numeral() {
    for n in 0..3000usize {
        assert_eq!(parse_number(&decimal_string(n as u64)), Ok(n));
    }
    assert_eq!(parse_number(&decimal_string(usize::MAX as u64)), Ok(usize::MAX));
}

#[test]
fn number_error_messages() {
    assert_eq!(NumberError::Empty.message(), "cannot parse integer from empty string");
    assert_eq!(NumberError::InvalidDigit.message(), "invalid digit found in string");
    assert_eq!(NumberError::TooLarge.message(), "number too large to fit in target type");
}
