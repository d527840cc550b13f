use mcu_sensors::commands::McuCommand;
use mcu_sensors::engine::Engine;
use mcu_sensors::reading::{Reading, ReadingError};
use mcu_sensors::result_map::ResultMap;

fn float_outcome(text: &str) -> Result<u32, String> {
    text.parse::<f32>().map(|f| f.to_bits()).map_err(|e| e.to_string())
}

fn all_commands() -> Vec<McuCommand> {
    vec![
        McuCommand::Am2320Humidity,
        McuCommand::Am2320Temperature,
        McuCommand::Ds18x20Temperature,
        McuCommand::Lux,
    ]
}

fn expect_error(map: &ResultMap, cmd: McuCommand, kind: ReadingError) {
    match map.get(cmd) {
        Some(Err(e)) => assert_eq!(e.error_type, kind),
        other => panic!("expected a {:?} error for {:?}, got {:?}", kind, cmd, other),
    }
}

#[test]
fn scenario_success_two_commands() {
    let mut e = Engine::start(
        Some("/dev/ttyUSB0"),
        vec![McuCommand::Am2320Humidity, McuCommand::Lux],
    );
    assert!(!e.is_done());
    assert_eq!(e.current_command(), Some(McuCommand::Am2320Humidity));
    assert_eq!(e.next_request(), Some("am2320_humidity\r"));
    let pending = e.response(b"45.2\n", 5).expect("a humidity reply awaits a float parse");
    assert_eq!(pending, "45.2");
    e.float_response(float_outcome(&pending));

    assert_eq!(e.next_request(), Some("lux\r"));
    assert!(e.response(b"88\n", 3).is_none());
    assert!(e.is_done());
    assert_eq!(e.next_request(), None);

    let map = e.into_results();
    assert_eq!(map.len(), 2);
    match map.get(McuCommand::Am2320Humidity) {
        Some(Ok(Reading::Humidity(bits))) => assert_eq!(f32::from_bits(*bits), 45.2),
        other => panic!("expected a humidity reading, got {:?}", other),
    }
    match map.get(McuCommand::Lux) {
        Some(Ok(Reading::Lux(v))) => assert_eq!(*v, 88),
        other => panic!("expected a lux reading, got {:?}", other),
    }
}

#[test]
fn scenario_write_failure_on_second_command() {
    let mut e = Engine::start(
        Some("/dev/ttyUSB0"),
        vec![McuCommand::Am2320Humidity, McuCommand::Lux],
    );
    let pending = e.response(b"45.2\n", 5).unwrap();
    e.float_response(float_outcome(&pending));

    e.write_failed("Error while writing to serial port: device gone".to_string());
    assert!(e.is_done());

    let map = e.into_results();
    assert_eq!(map.len(), 2);
    match map.get(McuCommand::Am2320Humidity) {
        Some(Ok(Reading::Humidity(bits))) => assert_eq!(f32::from_bits(*bits), 45.2),
        other => panic!("the earlier success must survive the halt, got {:?}", other),
    }
    expect_error(&map, McuCommand::Lux, ReadingError::SerialWriteFailure);
    match map.get(McuCommand::Lux) {
        Some(Err(e)) => assert_eq!(e.message, "Error while writing to serial port: device gone"),
        _ => unreachable!(),
    }
}

#[test]
fn unrepresentable_path_fails_every_command_without_io() {
    let e = Engine::start(None, all_commands());
    assert!(e.is_done());
    let map = e.into_results();
    assert_eq!(map.len(), 4);
    for cmd in all_commands() {
        expect_error(&map, cmd, ReadingError::InvalidSerialError);
        match map.get(cmd) {
            Some(Err(e)) => assert_eq!(e.message, "Failed to coerce serial port to filepath"),
            _ => unreachable!(),
        }
    }
}

#[test]
fn open_failure_fails_every_command() {
    let mut e = Engine::start(Some("/dev/ttyUSB0"), all_commands());
    e.open_failed("Error while opening serial port: no such device".to_string());
    assert!(e.is_done());
    let map = e.into_results();
    assert_eq!(map.len(), 4);
    for cmd in all_commands() {
        expect_error(&map, cmd, ReadingError::SerialOpenFailure);
    }
}

#[test]
fn read_failure_fills_the_remaining_commands() {
    let mut e = Engine::start(Some("/dev/ttyUSB0"), all_commands());
    let pending = e.response(b"45.2\n", 5).unwrap();
    e.float_response(float_outcome(&pending));
    e.read_failed("Error while reading from serial port: timed out".to_string());
    assert!(e.is_done());
    let map = e.into_results();
    assert_eq!(map.len(), 4);
    assert!(matches!(map.get(McuCommand::Am2320Humidity), Some(Ok(_))));
    expect_error(&map, McuCommand::Am2320Temperature, ReadingError::SerialReadFailure);
    expect_error(&map, McuCommand::Ds18x20Temperature, ReadingError::SerialReadFailure);
    expect_error(&map, McuCommand::Lux, ReadingError::SerialReadFailure);
}

#[test]
fn invalid_utf8_response_is_a_decode_failure_for_the_rest() {
    let mut e = Engine::start(Some("/dev/ttyUSB0"), all_commands());
    assert!(e.response(&[0xff, 0xfe, b'\n'], 3).is_none());
    assert!(e.is_done());
    let map = e.into_results();
    assert_eq!(map.len(), 4);
    for cmd in all_commands() {
        expect_error(&map, cmd, ReadingError::SerialDecodeFailure);
    }
}

#[test]
fn float_parse_failure_halts_with_a_decode_failure() {
    let mut e = Engine::start(
        Some("/dev/ttyUSB0"),
        vec![McuCommand::Am2320Temperature, McuCommand::Lux],
    );
    let pending = e.response(b"abc\n", 4).unwrap();
    assert_eq!(pending, "abc");
    e.float_response(float_outcome(&pending));
    assert!(e.is_done());
    let map = e.into_results();
    assert_eq!(map.len(), 2);
    expect_error(&map, McuCommand::Am2320Temperature, ReadingError::SerialDecodeFailure);
    expect_error(&map, McuCommand::Lux, ReadingError::SerialDecodeFailure);
}

#[test]
fn lux_parse_failure_halts_with_a_parse_error() {
    let mut e = Engine::start(Some("/dev/ttyUSB0"), vec![McuCommand::Lux]);
    assert!(e.response(b"12x\n", 4).is_none());
    assert!(e.is_done());
    let map = e.into_results();
    assert_eq!(map.len(), 1);
    expect_error(&map, McuCommand::Lux, ReadingError::SerialParseError);
    match map.get(McuCommand::Lux) {
        Some(Err(e)) => assert_eq!(e.message, "invalid digit found in string"),
        _ => unreachable!(),
    }
}

#[test]
fn full_run_over_all_four_commands() {
    let mut e = Engine::start(Some("/dev/ttyUSB0"), all_commands());
    for (request, reply) in [
        ("am2320_humidity\r", "45.2\n"),
        ("am2320_temp\r", "21.0\n"),
        ("ds18x20_temp\r", "20.5\n"),
        ("lux\r", "512\n"),
    ] {
        assert_eq!(e.next_request(), Some(request));
        if let Some(text) = e.response(reply.as_bytes(), reply.len()) {
            e.float_response(float_outcome(&text));
        }
    }
    assert!(e.is_done());
    let map = e.into_results();
    assert_eq!(map.len(), 4);
    for cmd in all_commands() {
        assert!(matches!(map.get(cmd), Some(Ok(_))), "no success for {:?}", cmd);
    }
    match map.get(McuCommand::Ds18x20Temperature) {
        Some(Ok(Reading::Temperature(bits))) => assert_eq!(f32::from_bits(*bits), 20.5),
        _ => unreachable!(),
    }
}

#[test]
fn result_map_entries_cover_each_command_once() {
    let e = Engine::start(None, all_commands());
    let map = e.into_results();
    let mut seen: Vec<McuCommand> = Vec::new();
    for i in 0..map.entry_count() {
        let entry = map.entry_at(i);
        assert!(!seen.contains(&entry.0), "duplicate entry for {:?}", entry.0);
        seen.push(entry.0);
    }
    assert_eq!(seen.len(), 4);
}

#[test]
fn empty_command_list_completes_with_an_empty_map() {
    let e = Engine::start(Some("/dev/ttyUSB0"), Vec::new());
    assert!(e.is_done());
    let map = e.into_results();
    assert_eq!(map.len(), 0);
    assert!(map.get(McuCommand::Lux).is_none());
}
