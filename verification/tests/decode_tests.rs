use mcu_sensors::commands::McuCommand;
use mcu_sensors::decode::{decode_float, decode_lux, int_err_text, parse_u16, IntParseError};
use mcu_sensors::reading::{Reading, ReadingError};

fn float_outcome(text: &str) -> Result<u32, String> {
    text.parse::<f32>().map(|f| f.to_bits()).map_err(|e| e.to_string())
}

#[test]
fn lux_decodes_plain_decimal() {
    assert!(matches!(decode_lux("100"), Ok(Reading::Lux(100))));
    assert!(matches!(decode_lux("0"), Ok(Reading::Lux(0))));
    assert!(matches!(decode_lux("65535"), Ok(Reading::Lux(65535))));
    assert!(matches!(decode_lux("+88"), Ok(Reading::Lux(88))));
}

#[test]
fn lux_rejects_negative_numbers_as_parse_error() {
    let e = decode_lux("-1").unwrap_err();
    assert_eq!(e.error_type, ReadingError::SerialParseError);
    assert_eq!(e.message, "invalid digit found in string");
}

#[test]
fn lux_rejects_non_numeric_text_as_parse_error() {
    let e = decode_lux("abc").unwrap_err();
    assert_eq!(e.error_type, ReadingError::SerialParseError);
    assert_eq!(e.message, "invalid digit found in string");
}

#[test]
fn lux_rejects_empty_text() {
    let e = decode_lux("").unwrap_err();
    assert_eq!(e.error_type, ReadingError::SerialParseError);
    assert_eq!(e.message, "cannot parse integer from empty string");
}

#[test]
fn lux_rejects_values_over_sixteen_bits() {
    let e = decode_lux("65536").unwrap_err();
    assert_eq!(e.error_type, ReadingError::SerialParseError);
    assert_eq!(e.message, "number too large to fit in target type");
}

#[test]
fn lux_rejects_bare_sign() {
    let e = decode_lux("+").unwrap_err();
    assert_eq!(e.error_type, ReadingError::SerialParseError);
    assert_eq!(e.message, "invalid digit found in string");
}

#[test]
fn parse_u16_agrees_with_the_standard_parser() {
    let samples = [
        "", "0", "7", "007", "65535", "65536", "99999", "655350", "-1", "+5", "+", "-", "1a",
        "a1", " 5", "5 ", "12.3", "+65535", "+65536", "0065535",
    ];
    for s in samples {
        match (parse_u16(s), s.parse::<u16>()) {
            (Ok(mine), Ok(std_v)) => assert_eq!(mine, std_v, "value for {:?}", s),
            (Err(e), Err(std_e)) => {
                assert_eq!(int_err_text(e), std_e.to_string(), "error for {:?}", s)
            }
            (mine, std_r) => panic!("disagree on {:?}: {:?} vs {:?}", s, mine, std_r),
        }
    }
}

#[test]
fn parse_u16_error_kinds() {
    assert!(matches!(parse_u16(""), Err(IntParseError::Empty)));
    assert!(matches!(parse_u16("x"), Err(IntParseError::InvalidDigit)));
    assert!(matches!(parse_u16("70000"), Err(IntParseError::PosOverflow)));
    assert!(matches!(parse_u16("70000x"), Err(IntParseError::PosOverflow)));
}

#[test]
fn humidity_round_trip() {
    let r = decode_float(McuCommand::Am2320Humidity, float_outcome("23.5")).unwrap();
    match r {
        Reading::Humidity(bits) => assert_eq!(f32::from_bits(bits), 23.5),
        other => panic!("expected a humidity reading, got {:?}", other),
    }
}

#[test]
fn temperature_round_trip_both_sensors() {
    for kind in [McuCommand::Am2320Temperature, McuCommand::Ds18x20Temperature] {
        let r = decode_float(kind, float_outcome("23.5")).unwrap();
        match r {
            Reading::Temperature(bits) => assert_eq!(f32::from_bits(bits), 23.5),
            other => panic!("expected a temperature reading, got {:?}", other),
        }
    }
}

#[test]
fn temperature_text_failure_is_a_decode_failure() {
    let e = decode_float(McuCommand::Am2320Temperature, float_outcome("abc")).unwrap_err();
    assert_eq!(e.error_type, ReadingError::SerialDecodeFailure);
    assert_eq!(e.message, "abc".parse::<f32>().unwrap_err().to_string());
}
