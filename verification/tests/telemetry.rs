//! Data-model projections and the content hash.

use dji_log_viewer::hashing::file_hash;
use dji_log_viewer::telemetry::flight_mode_name;
use dji_log_viewer::telemetry::model_name;
use dji_log_viewer::telemetry::TelemetryData;
use dji_log_viewer::telemetry::TelemetryRecord;

fn record(ts: u64) -> TelemetryRecord {
    TelemetryRecord {
        timestamp_ms: ts,
        latitude: None,
        longitude: None,
        altitude: Some(ts as i64),
        speed: None,
        battery_percent: Some(50),
        pitch: None,
        roll: None,
        yaw: None,
        satellites: Some(12),
        flight_mode: Some(2),
    }
}

#[test]
fn time_projection_is_relative_to_first_record() {
    let records = vec![record(3000), record(3500), record(4000), record(7000)];
    let data = TelemetryData::from_records(&records);
    assert_eq!(data.time_ms, vec![0, 500, 1000, 4000]);
    assert_eq!(data.altitude, vec![Some(3000), Some(3500), Some(4000), Some(7000)]);
    assert_eq!(data.battery, vec![Some(50); 4]);
    assert_eq!(data.satellites, vec![Some(12); 4]);
}

#[test]
fn time_projection_of_empty_records() {
    let data = TelemetryData::from_records(&[]);
    assert!(data.time_ms.is_empty());
    assert!(data.speed.is_empty());
}

#[test]
fn flight_mode_names() {
    assert_eq!(flight_mode_name(0), "Manual");
    assert_eq!(flight_mode_name(2), "GPS");
    assert_eq!(flight_mode_name(6), "ReturnToHome");
    assert_eq!(flight_mode_name(200), "Unknown");
}

#[test]
fn model_names() {
    assert_eq!(model_name(2), "Mini 3 Pro");
    assert_eq!(model_name(4), "Mavic 3");
    assert_eq!(model_name(99), "Unknown");
}

#[test]
fn content_hash_known_values() {
    assert_eq!(file_hash(b""), 0xcbf29ce484222325);
    assert_eq!(file_hash(b"a"), 0xaf63dc4c8601ec8c);
    assert_eq!(file_hash(b"hello"), 0xa430d84680aabd0b);
}

#[test]
fn content_hash_separates_different_bytes() {
    assert_ne!(file_hash(b"flight-one"), file_hash(b"flight-two"));
}
