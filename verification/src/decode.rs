use vstd::prelude::*;
use vstd::string::{StrSliceExecFns, StringExecFns};

use crate::commands::McuCommand;
use crate::reading::{outcome_view, CommandError, Reading, ReadingError};

verus! {

/// Why a piece of response text failed to parse as an unsigned integer.
#[derive(Copy, Clone, PartialEq, Eq, Structural, Debug)]
pub enum IntParseError {
    Empty,
    InvalidDigit,
    PosOverflow,
}

/// A decimal digit character.
pub open spec fn is_digit(c: char) -> bool {
    '0' as int <= c as int && c as int <= '9' as int
}

/// Numeric value of a decimal digit character.
pub open spec fn digit_val(c: char) -> int {
    c as int - '0' as int
}

/// Left-to-right digit accumulation from position `i`, with `acc` already
/// read: the first non-digit stops the parse, and the first step that would
/// push the value past the 16-bit maximum reports overflow.
pub open spec fn spec_parse_digits(s: Seq<char>, i: int, acc: int) -> Result<int, IntParseError>
    decreases s.len() - i,
    when 0 <= i <= s.len()
{
    if i >= s.len() {
        Result::Ok(acc)
    } else if !is_digit(s[i]) {
        Result::Err(IntParseError::InvalidDigit)
    } else if acc * 10 + digit_val(s[i]) > 65535 {
        Result::Err(IntParseError::PosOverflow)
    } else {
        spec_parse_digits(s, i + 1, acc * 10 + digit_val(s[i]))
    }
}

/// Strict decimal parse of a 16-bit unsigned integer: an optional leading
/// `+`, then one or more digits, no other characters, value at most 65535.
pub open spec fn spec_parse_u16(s: Seq<char>) -> Result<u16, IntParseError> {
    if s.len() == 0 {
        Result::Err(IntParseError::Empty)
    } else {
        let start: int = if s[0] == '+' {
            1
        } else {
            0
        };
        if s.len() == start {
            Result::Err(IntParseError::InvalidDigit)
        } else {
            match spec_parse_digits(s, start, 0) {
                Result::Ok(v) => Result::Ok(v as u16),
                Result::Err(e) => Result::Err(e),
            }
        }
    }
}

/// A successful digit accumulation never exceeds the 16-bit maximum.
proof fn lemma_parse_digits_bound(s: Seq<char>, i: int, acc: int)
    requires
        0 <= i <= s.len(),
        0 <= acc <= 65535,
        spec_parse_digits(s, i, acc) is Ok,
    ensures
        0 <= spec_parse_digits(s, i, acc)->Ok_0 <= 65535,
    decreases s.len() - i,
{
    if i < s.len() && is_digit(s[i]) && acc * 10 + digit_val(s[i]) <= 65535 {
        lemma_parse_digits_bound(s, i + 1, acc * 10 + digit_val(s[i]));
    }
}

/// Strict decimal parse of response text as a 16-bit unsigned integer.
pub fn parse_u16(text: &str) -> (r: Result<u16, IntParseError>)
    ensures
        r == spec_parse_u16(text@),
{
    let n = text.unicode_len();
    if n == 0 {
        return Err(IntParseError::Empty);
    }
    let first = text.get_char(0);
    let start: usize = if first == '+' {
        1
    } else {
        0
    };
    if n == start {
        proof {
            assert(spec_parse_u16(text@) == Result::<u16, IntParseError>::Err(
                IntParseError::InvalidDigit,
            ));
        }
        return Err(IntParseError::InvalidDigit);
    }
    let mut i: usize = start;
    let mut acc: u16 = 0;
    while i < n
        invariant
            start <= i <= n,
            n == text@.len(),
            0 < n,
            start < n,
            start as int == (if text@[0] == '+' {
                1int
            } else {
                0int
            }),
            spec_parse_digits(text@, start as int, 0) == spec_parse_digits(
                text@,
                i as int,
                acc as int,
            ),
        decreases n - i,
    {
        let c = text.get_char(i);
        if c < '0' || c > '9' {
            proof {
                assert(spec_parse_digits(text@, i as int, acc as int) == Result::<
                    int,
                    IntParseError,
                >::Err(IntParseError::InvalidDigit));
                assert(spec_parse_u16(text@) == Result::<u16, IntParseError>::Err(
                    IntParseError::InvalidDigit,
                ));
            }
            return Err(IntParseError::InvalidDigit);
        }
        let d: u32 = c as u32 - '0' as u32;
        let next: u32 = acc as u32 * 10 + d;
        if next > 65535 {
            proof {
                assert(spec_parse_digits(text@, i as int, acc as int) == Result::<
                    int,
                    IntParseError,
                >::Err(IntParseError::PosOverflow));
            }
            return Err(IntParseError::PosOverflow);
        }
        proof {
            assert(spec_parse_digits(text@, i as int, acc as int) == spec_parse_digits(
                text@,
                i as int + 1,
                next as int,
            ));
        }
        acc = next as u16;
        i = i + 1;
    }
    proof {
        assert(spec_parse_digits(text@, i as int, acc as int) == Result::<
            int,
            IntParseError,
        >::Ok(acc as int));
    }
    proof {
        lemma_parse_digits_bound(text@, start as int, 0);
    }
    Ok(acc)
}

/// The error text the standard integer parser reports for each failure.
pub open spec fn spec_int_err_text(e: IntParseError) -> Seq<char> {
    match e {
        IntParseError::Empty => "cannot parse integer from empty string"@,
        IntParseError::InvalidDigit => "invalid digit found in string"@,
        IntParseError::PosOverflow => "number too large to fit in target type"@,
    }
}

/// Human-readable text for an integer parse failure.
pub fn int_err_text(e: IntParseError) -> (s: &'static str)
    ensures
        s@ == spec_int_err_text(e),
{
    match e {
        IntParseError::Empty => "cannot parse integer from empty string",
        IntParseError::InvalidDigit => "invalid digit found in string",
        IntParseError::PosOverflow => "number too large to fit in target type",
    }
}

/// Outcome of decoding light-level response text: the lux count on success,
/// or the integer parser's failure under the dedicated parse-error stage.
pub open spec fn spec_decode_lux(text: Seq<char>) -> Result<
    Reading,
    (ReadingError, Seq<char>),
> {
    match spec_parse_u16(text) {
        Result::Ok(v) => Result::Ok(Reading::Lux(v)),
        Result::Err(e) => Result::Err((ReadingError::SerialParseError, spec_int_err_text(e))),
    }
}

/// Decodes a light-level response: strict unsigned 16-bit decimal text.
pub fn decode_lux(text: &str) -> (r: Result<Reading, CommandError>)
    ensures
        outcome_view(r) == spec_decode_lux(text@),
{
    match parse_u16(text) {
        Ok(v) => Ok(Reading::Lux(v)),
        Err(e) => Err(
            CommandError {
                error_type: ReadingError::SerialParseError,
                message: String::from_str(int_err_text(e)),
            },
        ),
    }
}

/// Mathematical value of a reported float-parse outcome: the bit pattern on
/// success, or the parser's error text.
pub open spec fn float_outcome_view(p: Result<u32, String>) -> Result<u32, Seq<char>> {
    match p {
        Result::Ok(bits) => Result::Ok(bits),
        Result::Err(s) => Result::Err(s@),
    }
}

/// Outcome of decoding a humidity or temperature response, given the reported
/// outcome of parsing the text as a single-precision value: the reading wraps
/// the bit pattern under the command's measurement, and a parse failure is a
/// decode failure carrying the parser's text.
pub open spec fn spec_decode_float(kind: McuCommand, parsed: Result<u32, Seq<char>>) -> Result<
    Reading,
    (ReadingError, Seq<char>),
> {
    match parsed {
        Result::Ok(bits) => Result::Ok(
            if kind == McuCommand::Am2320Humidity {
                Reading::Humidity(bits)
            } else {
                Reading::Temperature(bits)
            },
        ),
        Result::Err(t) => Result::Err((ReadingError::SerialDecodeFailure, t)),
    }
}

/// Decodes a humidity or temperature response from the reported outcome of
/// the single-precision parse of its text (the parse itself happens outside
/// the library, which never computes with the number).
pub fn decode_float(kind: McuCommand, parsed: Result<u32, String>) -> (r: Result<
    Reading,
    CommandError,
>)
    requires
        kind != McuCommand::Lux,
    ensures
        outcome_view(r) == spec_decode_float(kind, float_outcome_view(parsed)),
{
    match parsed {
        Ok(bits) => {
            if kind == McuCommand::Am2320Humidity {
                Ok(Reading::Humidity(bits))
            } else {
                Ok(Reading::Temperature(bits))
            }
        },
        Err(msg) => Err(
            CommandError { error_type: ReadingError::SerialDecodeFailure, message: msg },
        ),
    }
}

/// Names the report `std::str::from_utf8` gives for invalid bytes: the text
/// depends on the bytes alone (it cites the position and length of the first
/// invalid sequence).
pub uninterp spec fn utf8_err_text_of(bytes: Seq<u8>) -> Seq<char>;

/// Relies on `std::str::from_utf8`: it succeeds exactly on valid UTF-8 and
/// then yields the decoded characters; on failure the error's own text is
/// passed along.
#[verifier::external_body]
pub(crate) fn utf8_to_string(bytes: &[u8]) -> (r: Result<String, String>)
    ensures
        r is Ok <==> vstd::utf8::valid_utf8(bytes@),
        r is Ok ==> r->Ok_0@ == vstd::utf8::decode_utf8(bytes@),
        r is Err ==> r->Err_0@ == utf8_err_text_of(bytes@),
{
    match std::str::from_utf8(bytes) {
        Ok(s) => Ok(s.to_string()),
        Err(e) => Err(e.to_string()),
    }
}

} // verus!
