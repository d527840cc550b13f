use mcu_sensors::commands::McuCommand;
use mcu_sensors::types::{ReadingType, Sensor};

#[test]
fn no_filters_selects_all_four_kinds() {
    let cmds = McuCommand::parse(None, None).unwrap();
    assert_eq!(
        cmds,
        vec![
            McuCommand::Am2320Humidity,
            McuCommand::Am2320Temperature,
            McuCommand::Ds18x20Temperature,
            McuCommand::Lux,
        ]
    );
}

#[test]
fn temperature_filter_selects_both_temperature_kinds() {
    let cmds = McuCommand::parse(Some(ReadingType::Temperature), None).unwrap();
    assert_eq!(
        cmds,
        vec![McuCommand::Am2320Temperature, McuCommand::Ds18x20Temperature]
    );
}

#[test]
fn humidity_filter_selects_humidity_kind() {
    let cmds = McuCommand::parse(Some(ReadingType::Humidity), None).unwrap();
    assert_eq!(cmds, vec![McuCommand::Am2320Humidity]);
}

#[test]
fn lux_filter_selects_lux_kind() {
    let cmds = McuCommand::parse(Some(ReadingType::Lux), None).unwrap();
    assert_eq!(cmds, vec![McuCommand::Lux]);
}

#[test]
fn am2320_sensor_filter_selects_its_two_kinds() {
    let cmds = McuCommand::parse(None, Some(Sensor::Am2320)).unwrap();
    assert_eq!(
        cmds,
        vec![McuCommand::Am2320Humidity, McuCommand::Am2320Temperature]
    );
}

#[test]
fn ds18x20_sensor_filter_selects_its_kind() {
    let cmds = McuCommand::parse(None, Some(Sensor::Ds18x20)).unwrap();
    assert_eq!(cmds, vec![McuCommand::Ds18x20Temperature]);
}

#[test]
fn lux_sensor_filter_selects_lux_kind() {
    let cmds = McuCommand::parse(None, Some(Sensor::Lux)).unwrap();
    assert_eq!(cmds, vec![McuCommand::Lux]);
}

#[test]
fn combined_filters_are_rejected() {
    let r = McuCommand::parse(Some(ReadingType::Humidity), Some(Sensor::Am2320));
    assert_eq!(r.unwrap_err(), "invalid query");
}

#[test]
fn wire_tokens_match_the_protocol() {
    assert_eq!(McuCommand::Am2320Humidity.wire_token(), "am2320_humidity");
    assert_eq!(McuCommand::Am2320Temperature.wire_token(), "am2320_temp");
    assert_eq!(McuCommand::Ds18x20Temperature.wire_token(), "ds18x20_temp");
    assert_eq!(McuCommand::Lux.wire_token(), "lux");
}

#[test]
fn wire_lines_append_a_carriage_return() {
    assert_eq!(McuCommand::Am2320Humidity.wire_line(), "am2320_humidity\r");
    assert_eq!(McuCommand::Am2320Temperature.wire_line(), "am2320_temp\r");
    assert_eq!(McuCommand::Ds18x20Temperature.wire_line(), "ds18x20_temp\r");
    assert_eq!(McuCommand::Lux.wire_line(), "lux\r");
}
