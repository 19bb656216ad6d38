//! Parser for durations written as `MM:SS`.
//!
//! The text is cut at its colons. The first field is the minutes; the second,
//! if there is one, the seconds; further fields are not looked at. A field is
//! a numeral: an optional `+`, then one or more decimal digits, with a value
//! that fits 16 bits.

use vstd::prelude::*;
use crate::text::chars_of;

verus! {

/// Why a duration or a pace could not be read.
#[derive(Debug, Clone, Copy, PartialEq, Eq)]
pub enum ParseError {
    /// A field is not a numeral that fits 16 bits.
    InvalidNumber,
    /// Minutes and seconds together exceed 65535 seconds.
    TooLong,
}

/// Whether `c` is a decimal digit.
pub open spec fn is_digit(c: char) -> bool {
    '0' <= c <= '9'
}

/// The value of a decimal digit.
pub open spec fn digit_value(c: char) -> int {
    c as int - '0' as int
}

/// The number that a string of decimal digits denotes; zero for the empty
/// string.
pub open spec fn decimal_value(digits: Seq<char>) -> int
    decreases digits.len(),
{
    if digits.len() == 0 {
        0
    } else {
        10 * decimal_value(digits.drop_last()) + digit_value(digits.last())
    }
}

/// The digits of a numeral: the text behind an optional leading `+`.
pub open spec fn numeral_digits(text: Seq<char>) -> Seq<char> {
    if text.len() > 0 && text[0] == '+' {
        text.drop_first()
    } else {
        text
    }
}

/// Whether the text is a numeral: an optional `+` and at least one digit,
/// with nothing else.
pub open spec fn is_numeral(text: Seq<char>) -> bool {
    let digits = numeral_digits(text);
    digits.len() > 0 && forall|i: int| 0 <= i < digits.len() ==> is_digit(#[trigger] digits[i])
}

/// The 16-bit value of a numeral, or `None` for text that is no numeral or
/// denotes more than 65535.
pub open spec fn numeral_value(text: Seq<char>) -> Option<u16> {
    if is_numeral(text) && decimal_value(numeral_digits(text)) <= u16::MAX {
        Some(decimal_value(numeral_digits(text)) as u16)
    } else {
        None
    }
}

/// The place of the first colon at or behind `from`, or the text's length
/// if there is none.
pub open spec fn field_end(text: Seq<char>, from: int) -> int
    decreases text.len() - from,
{
    if from < 0 || from >= text.len() || text[from] == ':' {
        from
    } else {
        field_end(text, from + 1)
    }
}

/// The minutes field: the text before the first colon.
pub open spec fn minutes_field(text: Seq<char>) -> Seq<char> {
    text.subrange(0, field_end(text, 0))
}

/// The seconds field: the text between the first colon and the second, or
/// `None` if the text has no colon.
pub open spec fn seconds_field(text: Seq<char>) -> Option<Seq<char>> {
    let colon = field_end(text, 0);
    if colon < text.len() {
        Some(text.subrange(colon + 1, field_end(text, colon + 1)))
    } else {
        None
    }
}

/// The seconds that minutes and seconds make together, if they fit 16 bits.
pub open spec fn total_seconds(minutes: u16, seconds: u16) -> Result<u16, ParseError> {
    if minutes * 60 + seconds <= u16::MAX {
        Ok((minutes * 60 + seconds) as u16)
    } else {
        Err(ParseError::TooLong)
    }
}

/// The duration that a text denotes, in seconds. A missing seconds field
/// counts as zero.
pub open spec fn duration_of(text: Seq<char>) -> Result<u16, ParseError> {
    let minutes = numeral_value(minutes_field(text));
    let seconds = match seconds_field(text) {
        Some(field) => numeral_value(field),
        None => Some(0u16),
    };
    if minutes is Some && seconds is Some {
        total_seconds(minutes->0, seconds->0)
    } else {
        Err(ParseError::InvalidNumber)
    }
}

/// A string of digits denotes at least what any of its leading parts does.
pub proof fn lemma_decimal_value_grows(digits: Seq<char>, shorter: int)
    requires
        0 <= shorter <= digits.len(),
        forall|i: int| 0 <= i < digits.len() ==> is_digit(#[trigger] digits[i]),
    ensures
        0 <= decimal_value(digits.take(shorter)) <= decimal_value(digits),
    decreases digits.len(),
{
    if digits.len() == 0 {
        assert(digits.take(shorter) =~= digits);
    } else if shorter == digits.len() {
        assert(digits.take(shorter) =~= digits);
        lemma_decimal_value_grows(digits.drop_last(), shorter - 1);
    } else {
        assert(digits.drop_last().take(shorter) =~= digits.take(shorter));
        lemma_decimal_value_grows(digits.drop_last(), shorter);
    }
}

/// Finds where the field that starts at `from` ends.
fn scan_field(chars: &Vec<char>, from: usize) -> (end: usize)
    requires
        from <= chars@.len(),
    ensures
        from <= end <= chars@.len(),
        end == field_end(chars@, from as int),
{
    let mut end: usize = from;
    while end < chars.len() && chars[end] != ':'
        invariant
            from <= end <= chars@.len(),
            field_end(chars@, from as int) == field_end(chars@, end as int),
        decreases chars@.len() - end,
    {
        end += 1;
    }
    end
}

/// Reads the numeral that stands between `from` and `to`.
fn parse_numeral(chars: &Vec<char>, from: usize, to: usize) -> (value: Option<u16>)
    requires
        from <= to <= chars@.len(),
    ensures
        value == numeral_value(chars@.subrange(from as int, to as int)),
{
    let ghost text = chars@.subrange(from as int, to as int);
    let ghost digits = numeral_digits(text);
    let start: usize = if from < to && chars[from] == '+' {
        from + 1
    } else {
        from
    };
    assert(digits =~= chars@.subrange(start as int, to as int));
    if start == to {
        return None;
    }
    let mut value: u32 = 0;
    let mut at: usize = start;
    while at < to
        invariant
            from <= start <= at <= to <= chars@.len(),
            text == chars@.subrange(from as int, to as int),
            digits == numeral_digits(text),
            digits == chars@.subrange(start as int, to as int),
            forall|i: int| 0 <= i < at - start ==> is_digit(#[trigger] digits[i]),
            value == decimal_value(digits.take(at - start)),
            value <= u16::MAX,
        decreases to - at,
    {
        let c: char = chars[at];
        assert(c == digits[at - start]);
        if c < '0' || c > '9' {
            return None;
        }
        let digit: u32 = c as u32 - '0' as u32;
        assert(digits.take(at - start + 1).drop_last() =~= digits.take(at - start));
        assert(digits.take(at - start + 1).last() == c);
        value = value * 10 + digit;
        if value > 65535 {
            proof {
                if is_numeral(text) {
                    lemma_decimal_value_grows(digits, at - start + 1);
                }
            }
            return None;
        }
        at += 1;
    }
    assert(digits.take(at - start) =~= digits);
    Some(value as u16)
}

/// Reads a duration written as `MM:SS` and gives it in seconds.
///
/// The seconds may be left out, with their colon. The result is
/// `InvalidNumber` when the minutes or the seconds are no numeral that fits
/// 16 bits, and `TooLong` when both are but the duration exceeds 65535
/// seconds.
pub fn parse_duration(text: &str) -> (result: Result<u16, ParseError>)
    ensures
        result == duration_of(text@),
{
    let chars = chars_of(text);
    let colon = scan_field(&chars, 0);
    let minutes = parse_numeral(&chars, 0, colon);
    let seconds = if colon < chars.len() {
        let end = scan_field(&chars, colon + 1);
        parse_numeral(&chars, colon + 1, end)
    } else {
        Some(0u16)
    };
    match (minutes, seconds) {
        (Some(minutes), Some(seconds)) => {
            let total: u32 = minutes as u32 * 60 + seconds as u32;
            if total <= 65535 {
                Ok(total as u16)
            } else {
                Err(ParseError::TooLong)
            }
        },
        _ => Err(ParseError::InvalidNumber),
    }
}

} // verus!
