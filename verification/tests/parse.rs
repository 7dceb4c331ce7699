use wavestation::parse::{parse_u64, parse_usize, seed_line, ParseError};

#[test]
fn parses_decimal() {
    assert_eq!(parse_u64("0"), Ok(0));
    assert_eq!(parse_u64("42"), Ok(42));
    assert_eq!(parse_u64("18446744073709551615"), Ok(u64::MAX));
}

#[test]
fn parses_hex() {
    assert_eq!(parse_u64("0x0"), Ok(0));
    assert_eq!(parse_u64("0xdeadBEEF"), Ok(0xdead_beef));
    assert_eq!(parse_u64("0xffffffffffffffff"), Ok(u64::MAX));
}

#[test]
fn parses_octal_and_binary() {
    assert_eq!(parse_u64("0o17"), Ok(15));
    assert_eq!(parse_u64("0b1011"), Ok(11));
}

#[test]
fn rejects_empty() {
    assert_eq!(parse_u64(""), Err(ParseError::Empty));
    assert_eq!(parse_u64("0x"), Err(ParseError::Empty));
    assert_eq!(parse_u64("0b"), Err(ParseError::Empty));
}

#[test]
fn rejects_invalid_digits() {
    assert_eq!(parse_u64("12a"), Err(ParseError::InvalidDigit));
    assert_eq!(parse_u64("0xg1"), Err(ParseError::InvalidDigit));
    assert_eq!(parse_u64("0o8"), Err(ParseError::InvalidDigit));
    assert_eq!(parse_u64("0b2"), Err(ParseError::InvalidDigit));
    assert_eq!(parse_u64("-3"), Err(ParseError::InvalidDigit));
}

#[test]
fn rejects_overflow() {
    assert_eq!(parse_u64("18446744073709551616"), Err(ParseError::Overflow));
    assert_eq!(parse_u64("0x10000000000000000"), Err(ParseError::Overflow));
}

#[test]
fn parses_usize() {
    assert_eq!(parse_usize("8"), Ok(8));
    assert_eq!(parse_usize("0x10"), Ok(16));
    assert_eq!(parse_usize("zz"), Err(ParseError::InvalidDigit));
}

#[test]
fn seed_line_round_trips_through_parse() {
    for seed in [0u64, 1, 0x42, 0xdead_beef, u64::MAX, 0x0123_4567_89ab_cdef] {
        let line = seed_line(seed);
        let hex = String::from_utf8(line[6..].to_vec()).unwrap();
        assert_eq!(parse_u64(&hex), Ok(seed));
    }
}

#[test]
fn seed_line_formats_sixteen_hex_digits() {
    assert_eq!(seed_line(1), b"seed: 0x0000000000000001".to_vec());
    assert_eq!(seed_line(0xdeadbeef), b"seed: 0x00000000deadbeef".to_vec());
    assert_eq!(seed_line(u64::MAX), b"seed: 0xffffffffffffffff".to_vec());
}
