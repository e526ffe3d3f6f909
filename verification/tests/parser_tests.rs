use serial_server::structs::{
    BarometerData, DataType, UltrasonicData, MIN_FRAME_LEN, SENSOR_TYPE_COUNT,
};

fn frame(discriminant: u8, timestamp: u32, primary: f32, temperature: f32) -> Vec<u8> {
    let mut f = vec![discriminant, 0, 0, 0];
    f.extend_from_slice(&timestamp.to_le_bytes());
    f.extend_from_slice(&primary.to_le_bytes());
    f.extend_from_slice(&temperature.to_le_bytes());
    f
}

#[test]
fn deterministic_parse() {
    let data = frame(0x50, 1000, 12.5, 20.0);
    assert_eq!(data.len(), MIN_FRAME_LEN);

    let before = chrono::Utc::now().timestamp_millis();
    let parsed = UltrasonicData::parse(data).expect("well-formed frame must parse");

    assert_eq!(parsed.id, DataType::Ultrasonic);
    assert_eq!(parsed.raw.id, 0x50);
    assert_eq!(parsed.raw.timestamp, 1000);
    assert_eq!(f32::from_bits(parsed.raw.altitude_bits), 12.5);
    assert_eq!(f32::from_bits(parsed.raw.temperature_bits), 20.0);
    assert!(parsed.raw.received_time >= before);
}

#[test]
fn parse_at_is_deterministic() {
    let data = frame(0x50, 7, 1.0, -2.0);
    let a = UltrasonicData::parse_at(&data, 42).unwrap();
    let b = UltrasonicData::parse_at(&data, 42).unwrap();
    assert_eq!(a, b);
    assert_eq!(a.raw.received_time, 42);
}

#[test]
fn parse_rejects_short_frame() {
    let mut data = frame(0x50, 1000, 12.5, 20.0);
    data.truncate(MIN_FRAME_LEN - 1);
    assert!(UltrasonicData::parse(data).is_none());
}

#[test]
fn parse_rejects_minimal_header_only() {
    assert!(UltrasonicData::parse(vec![0x50]).is_none());
    assert!(BarometerData::parse(vec![0x90]).is_none());
}

#[test]
fn parse_rejects_wrong_discriminant() {
    let data = frame(0x90, 1000, 12.5, 20.0);
    assert!(UltrasonicData::parse(data).is_none());
    let data = frame(0x50, 1000, 12.5, 20.0);
    assert!(BarometerData::parse(data).is_none());
}

#[test]
fn barometer_parse() {
    let data = frame(0x90, 3_000_000, 1013.25, -5.5);
    let parsed = BarometerData::parse_at(&data, 99).expect("well-formed frame must parse");
    assert_eq!(parsed.id, DataType::Barometer);
    assert_eq!(parsed.raw.id, 0x90);
    assert_eq!(parsed.raw.timestamp, 3_000_000);
    assert_eq!(f32::from_bits(parsed.raw.pressure_bits), 1013.25);
    assert_eq!(f32::from_bits(parsed.raw.temperature_bits), -5.5);
    assert_eq!(parsed.raw.received_time, 99);
}

#[test]
fn new_fixes_the_sensor_type() {
    let u = UltrasonicData::new(0x50, 1, 2, 3, 4);
    assert_eq!(u.id, DataType::Ultrasonic);
    assert_eq!(u.raw.timestamp, 1);
    let b = BarometerData::new(0x90, 5, 6, 7, 8);
    assert_eq!(b.id, DataType::Barometer);
    assert_eq!(b.raw.pressure_bits, 6);
}

#[test]
fn discriminant_table_round_trip() {
    let all = [
        (0x00u8, DataType::MainBoard),
        (0x10, DataType::ServoController),
        (0x20, DataType::Tachometer),
        (0x21, DataType::Thrustmeter),
        (0x30, DataType::Pitot),
        (0x40, DataType::IMU),
        (0x50, DataType::Ultrasonic),
        (0x60, DataType::GPS),
        (0x70, DataType::Vane),
        (0x90, DataType::Barometer),
    ];
    assert_eq!(all.len(), SENSOR_TYPE_COUNT);
    for (code, t) in all {
        assert_eq!(DataType::from_code(code), Some(t));
        assert_eq!(t.code(), code);
    }
}

#[test]
fn unknown_discriminants_are_rejected() {
    for code in [0x01u8, 0x22, 0x80, 0xFF] {
        assert_eq!(DataType::from_code(code), None);
    }
}
