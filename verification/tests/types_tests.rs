use mcu_sensors::types::{ReadingType, Sensor};

#[test]
fn sensor_accepts_known_names() {
    assert!(matches!(Sensor::try_from("am2320".to_string()), Ok(Sensor::Am2320)));
    assert!(matches!(Sensor::try_from("ds18x20".to_string()), Ok(Sensor::Ds18x20)));
    assert!(matches!(Sensor::try_from("lux".to_string()), Ok(Sensor::Lux)));
}

#[test]
fn sensor_rejects_unknown_name() {
    let r = Sensor::try_from("bmp280".to_string());
    assert_eq!(
        r.unwrap_err(),
        "Invalid sensor bmp280, expected one of am2320, ds18x20, lux"
    );
}

#[test]
fn reading_type_accepts_known_names() {
    assert!(matches!(
        ReadingType::try_from("temperature".to_string()),
        Ok(ReadingType::Temperature)
    ));
    assert!(matches!(
        ReadingType::try_from("humidity".to_string()),
        Ok(ReadingType::Humidity)
    ));
    assert!(matches!(ReadingType::try_from("lux".to_string()), Ok(ReadingType::Lux)));
}

#[test]
fn reading_type_rejects_unknown_name() {
    let r = ReadingType::try_from("pressure".to_string());
    assert_eq!(
        r.unwrap_err(),
        "Invalid reading_type pressure, expected one of temperature/temp, humidity/hum, lux"
    );
}
