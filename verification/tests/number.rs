use shannon::number::{digit, parse_bounded, parse_port, parse_u16, parse_u32, push_decimal, to_decimal, IntError};

fn chars(s: &str) -> Vec<char> {
    s.chars().collect()
}

const NUMERALS: [&str; 28] = [
    "", "0", "7", "007", "+7", "+", "-", "-7", "++7", "+-7", "65535", "65536", "065535",
    "0000000000000000065535", "99999", "99999x", "6553x", "65536x", "x", "1 ", " 1", "1_000", "4294967295",
    "4294967296", "18446744073709551616", "٣", "8080", "+08080",
];

fn kind_of(e: &std::num::ParseIntError) -> IntError {
    let text = e.to_string();
    if text == "cannot parse integer from empty string" {
        IntError::Empty
    } else if text == "invalid digit found in string" {
        IntError::InvalidDigit
    } else if text == "number too large to fit in target type" {
        IntError::PosOverflow
    } else {
        panic!("unexpected error text {:?}", text)
    }
}

#[test]
fn parse_u16_agrees_with_the_standard_parser() {
    for s in NUMERALS {
        let expected = s.parse::<u16>().map_err(|e| kind_of(&e));
        assert_eq!(parse_u16(&chars(s)), expected, "{:?}", s);
    }
}

#[test]
fn parse_u32_agrees_with_the_standard_parser() {
    for s in NUMERALS {
        let expected = s.parse::<u32>().map_err(|e| kind_of(&e));
        assert_eq!(parse_u32(&chars(s)), expected, "{:?}", s);
    }
}

#[test]
fn parse_port_is_none_for_what_is_no_port() {
    assert_eq!(parse_port(&chars("8080")), Some(8080));
    assert_eq!(parse_port(&chars("65535")), Some(65535));
    assert_eq!(parse_port(&chars("65536")), None);
    assert_eq!(parse_port(&chars("")), None);
    assert_eq!(parse_port(&chars("http")), None);
}

#[test]
fn parse_errors_name_the_first_fault() {
    assert_eq!(parse_u16(&chars("")), Err(IntError::Empty));
    assert_eq!(parse_u16(&chars("+")), Err(IntError::InvalidDigit));
    assert_eq!(parse_u16(&chars("12a")), Err(IntError::InvalidDigit));
    assert_eq!(parse_u16(&chars("70000")), Err(IntError::PosOverflow));
    assert_eq!(parse_u16(&chars("70000a")), Err(IntError::PosOverflow));
    assert_eq!(parse_u16(&chars("7000a0")), Err(IntError::InvalidDigit));
}

#[test]
fn parse_bounded_respects_the_bound() {
    assert_eq!(parse_bounded(&chars("10"), 10), Ok(10));
    assert_eq!(parse_bounded(&chars("11"), 10), Err(IntError::PosOverflow));
    assert_eq!(parse_bounded(&chars("0"), 0), Ok(0));
    assert_eq!(parse_bounded(&chars("18446744073709551615"), u64::MAX), Ok(u64::MAX));
    assert_eq!(parse_bounded(&chars("18446744073709551616"), u64::MAX), Err(IntError::PosOverflow));
    assert_eq!(parse_bounded(&chars("99999999999999999999999"), u64::MAX), Err(IntError::PosOverflow));
    for s in NUMERALS {
        let expected = s.parse::<u64>().map_err(|e| kind_of(&e));
        assert_eq!(parse_bounded(&chars(s), u64::MAX), expected, "{:?}", s);
    }
}

#[test]
fn decimal_agrees_with_the_standard_formatting() {
    for n in [0u64, 1, 9, 10, 11, 99, 100, 8080, 65535, 65536, 4294967295, 4294967296, u64::MAX] {
        assert_eq!(to_decimal(n), n.to_string());
        let mut out = String::from("port ");
        push_decimal(&mut out, n);
        assert_eq!(out, format!("port {}", n));
    }
}

#[test]
fn decimal_and_parse_are_inverse() {
    for n in [0u16, 1, 9, 10, 443, 8080, 65535] {
        assert_eq!(parse_u16(&chars(&to_decimal(n as u64))), Ok(n));
    }
}

#[test]
fn digit_gives_the_ten_digits() {
    let all: String = (0..10).map(digit).collect();
    assert_eq!(all, "0123456789");
}
