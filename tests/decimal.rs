use sqnz::config::{parse_port, DEFAULT_PORT};
use sqnz::decimal::{encode_decimal, parse_decimal, ParseError};

#[test]
fn encodes_exact_digits() {
    assert_eq!(encode_decimal(0), b"0".to_vec());
    assert_eq!(encode_decimal(7), b"7".to_vec());
    assert_eq!(encode_decimal(10), b"10".to_vec());
    assert_eq!(encode_decimal(4096), b"4096".to_vec());
    assert_eq!(encode_decimal(u64::MAX), b"18446744073709551615".to_vec());
}

#[test]
fn parses_exact_values() {
    assert_eq!(parse_decimal(b"0"), Ok(0));
    assert_eq!(parse_decimal(b"41"), Ok(41));
    assert_eq!(parse_decimal(b"007"), Ok(7));
    assert_eq!(parse_decimal(b"18446744073709551615"), Ok(u64::MAX));
}

#[test]
fn parse_errors() {
    assert_eq!(parse_decimal(b""), Err(ParseError::Empty));
    assert_eq!(parse_decimal(b"hello"), Err(ParseError::InvalidDigit));
    assert_eq!(parse_decimal(b"+5"), Err(ParseError::InvalidDigit));
    assert_eq!(parse_decimal(b"-5"), Err(ParseError::InvalidDigit));
    assert_eq!(parse_decimal(b"12\n"), Err(ParseError::InvalidDigit));
    assert_eq!(parse_decimal(b"99999999999999999999x"), Err(ParseError::InvalidDigit));
    assert_eq!(parse_decimal(b"18446744073709551616"), Err(ParseError::Overflow));
    assert_eq!(parse_decimal(b"99999999999999999999"), Err(ParseError::Overflow));
}

#[test]
fn encode_then_parse_round_trips() {
    for v in [0u64, 1, 9, 10, 99, 100, 123456789, u64::MAX - 1, u64::MAX] {
        assert_eq!(parse_decimal(&encode_decimal(v)), Ok(v));
    }
}

#[test]
fn port_defaults_when_unset_or_empty() {
    assert_eq!(DEFAULT_PORT, 8080);
    assert_eq!(parse_port(None), Ok(8080));
    assert_eq!(parse_port(Some(b"")), Ok(8080));
}

#[test]
fn port_is_read_in_decimal() {
    assert_eq!(parse_port(Some(b"9000")), Ok(9000));
    assert_eq!(parse_port(Some(b"65535")), Ok(65535));
    assert_eq!(parse_port(Some(b"0")), Ok(0));
}

#[test]
fn port_that_is_not_a_number_is_refused() {
    assert_eq!(parse_port(Some(b"notanumber")), Err(ParseError::InvalidDigit));
    assert_eq!(parse_port(Some(b"65536")), Err(ParseError::Overflow));
    assert_eq!(parse_port(Some(b"-1")), Err(ParseError::InvalidDigit));
}
