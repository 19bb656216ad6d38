use treadmill::duration::{parse_duration, ParseError};

#[test]
fn minutes_and_seconds() {
    assert_eq!(parse_duration("2:30"), Ok(150));
    assert_eq!(parse_duration("10:00"), Ok(600));
    assert_eq!(parse_duration("0:05"), Ok(5));
}

#[test]
fn more_durations() {
    assert_eq!(parse_duration("0:00"), Ok(0));
    assert_eq!(parse_duration("1:00"), Ok(60));
    assert_eq!(parse_duration("8:00"), Ok(480));
    assert_eq!(parse_duration("59:59"), Ok(3599));
    assert_eq!(parse_duration("90:00"), Ok(5400));
}

#[test]
fn seconds_may_be_left_out() {
    assert_eq!(parse_duration("5"), Ok(300));
    assert_eq!(parse_duration("0"), Ok(0));
}

#[test]
fn seconds_are_not_limited_to_sixty() {
    assert_eq!(parse_duration("1:75"), Ok(135));
    assert_eq!(parse_duration("0:600"), Ok(600));
}

#[test]
fn fields_behind_the_second_are_not_read() {
    assert_eq!(parse_duration("1:2:3"), Ok(62));
    assert_eq!(parse_duration("1:2:"), Ok(62));
    assert_eq!(parse_duration("1:2:x"), Ok(62));
    assert_eq!(parse_duration("1:2:99999999"), Ok(62));
}

#[test]
fn leading_zeros_and_plus_sign() {
    assert_eq!(parse_duration("02:03"), Ok(123));
    assert_eq!(parse_duration("+2:+30"), Ok(150));
    assert_eq!(parse_duration("000000000000000000002:000000000000000000030"), Ok(150));
}

#[test]
fn empty_fields_are_invalid() {
    assert_eq!(parse_duration(""), Err(ParseError::InvalidNumber));
    assert_eq!(parse_duration(":"), Err(ParseError::InvalidNumber));
    assert_eq!(parse_duration(":30"), Err(ParseError::InvalidNumber));
    assert_eq!(parse_duration("5:"), Err(ParseError::InvalidNumber));
    assert_eq!(parse_duration("5::30"), Err(ParseError::InvalidNumber));
}

#[test]
fn malformed_numbers_are_invalid() {
    assert_eq!(parse_duration("a:30"), Err(ParseError::InvalidNumber));
    assert_eq!(parse_duration("2:3x"), Err(ParseError::InvalidNumber));
    assert_eq!(parse_duration("-2:30"), Err(ParseError::InvalidNumber));
    assert_eq!(parse_duration("2:-30"), Err(ParseError::InvalidNumber));
    assert_eq!(parse_duration("+:30"), Err(ParseError::InvalidNumber));
    assert_eq!(parse_duration("++2:30"), Err(ParseError::InvalidNumber));
    assert_eq!(parse_duration(" 2:30"), Err(ParseError::InvalidNumber));
    assert_eq!(parse_duration("2:30 "), Err(ParseError::InvalidNumber));
    assert_eq!(parse_duration("2.5"), Err(ParseError::InvalidNumber));
    assert_eq!(parse_duration("2;30"), Err(ParseError::InvalidNumber));
}

#[test]
fn digits_outside_ascii_are_invalid() {
    assert_eq!(parse_duration("\u{0662}:30"), Err(ParseError::InvalidNumber));
    assert_eq!(parse_duration("2:\u{FF13}0"), Err(ParseError::InvalidNumber));
    assert_eq!(parse_duration("2\u{FF1A}30"), Err(ParseError::InvalidNumber));
    assert_eq!(parse_duration("\u{00E9}"), Err(ParseError::InvalidNumber));
}

#[test]
fn fields_above_16_bits_are_invalid() {
    assert_eq!(parse_duration("65535"), Err(ParseError::TooLong));
    assert_eq!(parse_duration("65536"), Err(ParseError::InvalidNumber));
    assert_eq!(parse_duration("0:65535"), Ok(65535));
    assert_eq!(parse_duration("0:65536"), Err(ParseError::InvalidNumber));
    assert_eq!(parse_duration("99999999999999999999:00"), Err(ParseError::InvalidNumber));
}

#[test]
fn durations_above_16_bits_are_too_long() {
    assert_eq!(parse_duration("1092:15"), Ok(65535));
    assert_eq!(parse_duration("1092:16"), Err(ParseError::TooLong));
    assert_eq!(parse_duration("1093:00"), Err(ParseError::TooLong));
    assert_eq!(parse_duration("1092"), Ok(65520));
    assert_eq!(parse_duration("1093"), Err(ParseError::TooLong));
}

#[test]
fn an_invalid_field_outweighs_length() {
    assert_eq!(parse_duration("60000:x"), Err(ParseError::InvalidNumber));
}

#[test]
fn agrees_with_the_standard_integer_parser() {
    let fields = ["", "0", "7", "07", "+7", "-7", "+", "65535", "65536", "1e3", "12a", " 1"];
    for minutes in fields {
        for seconds in fields {
            let text = format!("{}:{}", minutes, seconds);
            let expected = match (minutes.parse::<u16>(), seconds.parse::<u16>()) {
                (Ok(m), Ok(s)) => {
                    let total = u32::from(m) * 60 + u32::from(s);
                    if total <= 65535 {
                        Ok(total as u16)
                    } else {
                        Err(ParseError::TooLong)
                    }
                }
                _ => Err(ParseError::InvalidNumber),
            };
            assert_eq!(parse_duration(&text), expected, "{:?}", text);
        }
    }
}
