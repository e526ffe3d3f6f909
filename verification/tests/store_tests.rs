use serial_server::pipeline::{process_frame, process_frame_at};
use serial_server::store::LatestValueStore;
use serial_server::structs::{DataType, SensorData};

const ALL_TYPES: [DataType; 10] = [
    DataType::MainBoard,
    DataType::ServoController,
    DataType::Tachometer,
    DataType::Thrustmeter,
    DataType::Pitot,
    DataType::IMU,
    DataType::Ultrasonic,
    DataType::GPS,
    DataType::Vane,
    DataType::Barometer,
];

fn frame(discriminant: u8, timestamp: u32, primary: f32, temperature: f32) -> Vec<u8> {
    let mut f = vec![discriminant, 0, 0, 0];
    f.extend_from_slice(&timestamp.to_le_bytes());
    f.extend_from_slice(&primary.to_le_bytes());
    f.extend_from_slice(&temperature.to_le_bytes());
    f
}

#[test]
fn store_starts_empty() {
    let store = LatestValueStore::new();
    for t in ALL_TYPES {
        assert_eq!(store.read(t), None);
    }
}

#[test]
fn read_is_idempotent() {
    let mut store = LatestValueStore::new();
    process_frame_at(&mut store, &frame(0x50, 10, 1.0, 2.0), 5);

    for t in ALL_TYPES {
        let first = store.read(t);
        let second = store.read(t);
        assert_eq!(first, second);
    }
}

#[test]
fn last_write_wins() {
    let mut store = LatestValueStore::new();
    let first = process_frame_at(&mut store, &frame(0x50, 100, 1.0, 2.0), 7).unwrap();
    let second = process_frame_at(&mut store, &frame(0x50, 200, 3.0, 4.0), 8).unwrap();
    assert_ne!(first, second);

    let held = store.read(DataType::Ultrasonic);
    assert_eq!(held, Some(second));

    match held {
        Some(SensorData::Ultrasonic(d)) => assert_eq!(d.raw.timestamp, 200),
        other => panic!("unexpected store entry: {:?}", other),
    }
}

#[test]
fn unknown_discriminant_leaves_store_unchanged() {
    let mut store = LatestValueStore::new();
    process_frame_at(&mut store, &frame(0x50, 10, 1.0, 2.0), 1);
    process_frame_at(&mut store, &frame(0x90, 20, 3.0, 4.0), 2);
    let before: Vec<_> = ALL_TYPES.iter().map(|t| store.read(*t)).collect();

    let r = process_frame_at(&mut store, &frame(0xFF, 30, 5.0, 6.0), 3);
    assert_eq!(r, None);

    let after: Vec<_> = ALL_TYPES.iter().map(|t| store.read(*t)).collect();
    assert_eq!(before, after);
}

#[test]
fn undersized_frame_leaves_store_unchanged() {
    let mut store = LatestValueStore::new();
    process_frame_at(&mut store, &frame(0x90, 20, 3.0, 4.0), 2);
    let before: Vec<_> = ALL_TYPES.iter().map(|t| store.read(*t)).collect();

    let r = process_frame_at(&mut store, &vec![0x90, 0, 0], 3);
    assert_eq!(r, None);
    let r = process_frame_at(&mut store, &Vec::new(), 4);
    assert_eq!(r, None);

    let after: Vec<_> = ALL_TYPES.iter().map(|t| store.read(*t)).collect();
    assert_eq!(before, after);
}

#[test]
fn decoderless_discriminant_yields_no_reading() {
    // GPS is in the discriminant table but has no wire-layout decoder yet.
    let mut store = LatestValueStore::new();
    let r = process_frame_at(&mut store, &frame(0x60, 10, 1.0, 2.0), 1);
    assert_eq!(r, None);
    assert_eq!(store.read(DataType::GPS), None);
}

#[test]
fn pipeline_hands_reading_to_store() {
    let mut store = LatestValueStore::new();
    let before = chrono::Utc::now().timestamp_millis();
    let r = process_frame(&mut store, &frame(0x90, 77, 1013.25, -5.5));

    match r {
        Some(SensorData::Barometer(d)) => {
            assert_eq!(d.raw.timestamp, 77);
            assert_eq!(f32::from_bits(d.raw.pressure_bits), 1013.25);
            assert!(d.raw.received_time >= before);
        }
        other => panic!("unexpected reading: {:?}", other),
    }
    assert_eq!(store.read(DataType::Barometer), r);
}

#[test]
fn updates_touch_only_their_own_type() {
    let mut store = LatestValueStore::new();
    let u = process_frame_at(&mut store, &frame(0x50, 1, 1.0, 2.0), 1);
    let b = process_frame_at(&mut store, &frame(0x90, 2, 3.0, 4.0), 2);
    assert_eq!(store.read(DataType::Ultrasonic), u);
    assert_eq!(store.read(DataType::Barometer), b);
    for t in ALL_TYPES {
        if t != DataType::Ultrasonic && t != DataType::Barometer {
            assert_eq!(store.read(t), None);
        }
    }
}
