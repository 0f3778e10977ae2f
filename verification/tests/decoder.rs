//! Container decoding: header handling, the encrypted-payload path, record
//! accumulation, and robustness against corrupt records.

use dji_log_viewer::decoder::decode_log;
use dji_log_viewer::decoder::DecodeError;

fn header(version: u8, model: u8, serial: u64) -> Vec<u8> {
    let mut v = vec![b'D', b'J', b'I', b'L', version, model];
    v.extend_from_slice(&serial.to_le_bytes());
    v.extend_from_slice(&[0u8, 0u8]);
    v
}

fn rec(tag: u8, body: &[u8]) -> Vec<u8> {
    let mut v = vec![tag, body.len() as u8];
    v.extend_from_slice(body);
    v
}

fn boundary(ts: u64) -> Vec<u8> {
    rec(1, &ts.to_le_bytes())
}

fn position(lat: i32, lon: i32, alt: i32, alt_abs: i32) -> Vec<u8> {
    let mut b = Vec::new();
    b.extend_from_slice(&lat.to_le_bytes());
    b.extend_from_slice(&lon.to_le_bytes());
    b.extend_from_slice(&alt.to_le_bytes());
    b.extend_from_slice(&alt_abs.to_le_bytes());
    rec(2, &b)
}

fn velocity(speed: i32, vx: i32, vy: i32, vz: i32) -> Vec<u8> {
    let mut b = Vec::new();
    b.extend_from_slice(&speed.to_le_bytes());
    b.extend_from_slice(&vx.to_le_bytes());
    b.extend_from_slice(&vy.to_le_bytes());
    b.extend_from_slice(&vz.to_le_bytes());
    rec(3, &b)
}

fn attitude(pitch: i16, roll: i16, yaw: i16) -> Vec<u8> {
    let mut b = Vec::new();
    b.extend_from_slice(&pitch.to_le_bytes());
    b.extend_from_slice(&roll.to_le_bytes());
    b.extend_from_slice(&yaw.to_le_bytes());
    rec(4, &b)
}

fn battery(percent: u8, mv: u16, ma: i16, temp: i16) -> Vec<u8> {
    let mut b = vec![percent];
    b.extend_from_slice(&mv.to_le_bytes());
    b.extend_from_slice(&ma.to_le_bytes());
    b.extend_from_slice(&temp.to_le_bytes());
    rec(6, &b)
}

fn status(mode: u8, gps: u8, sats: u8, rc: u8) -> Vec<u8> {
    rec(7, &[mode, gps, sats, rc])
}

fn plain_log(version: u8, records: &[Vec<u8>]) -> Vec<u8> {
    let mut v = header(version, 2, 777);
    for r in records {
        v.extend_from_slice(r);
    }
    v
}

fn encrypted_log(version: u8, records: &[Vec<u8>], key: &[u8]) -> Vec<u8> {
    let mut plain = vec![b'T', b'R', b'E', b'C'];
    for r in records {
        plain.extend_from_slice(r);
    }
    let mut v = header(version, 2, 777);
    for (i, byte) in plain.iter().enumerate() {
        v.push(byte ^ key[i % key.len()]);
    }
    v
}

#[test]
fn decodes_a_plaintext_flight() {
    let bytes = plain_log(
        11,
        &[
            position(473977000, 85458000, 12500, 413000),
            velocity(5000, 4000, -3000, 100),
            attitude(120, -45, 900),
            battery(87, 15400, -2500, 312),
            status(2, 4, 14, 90),
            boundary(1000),
            boundary(2000),
        ],
    );
    let log = decode_log(&bytes, None).unwrap();
    assert_eq!(log.version, 11);
    assert_eq!(log.drone_model, Some(2));
    assert_eq!(log.drone_serial, Some(777));
    assert_eq!(log.warnings, 0);
    assert_eq!(log.points.len(), 2);
    let p = &log.points[0];
    assert_eq!(p.timestamp_ms, 1000);
    assert_eq!(p.latitude, Some(473977000));
    assert_eq!(p.longitude, Some(85458000));
    assert_eq!(p.altitude, Some(12500));
    assert_eq!(p.altitude_abs, Some(413000));
    assert_eq!(p.speed, Some(5000));
    assert_eq!(p.velocity_y, Some(-3000));
    assert_eq!(p.pitch, Some(120));
    assert_eq!(p.roll, Some(-45));
    assert_eq!(p.yaw, Some(900));
    assert_eq!(p.battery_percent, Some(87));
    assert_eq!(p.battery_voltage, Some(15400));
    assert_eq!(p.battery_current, Some(-2500));
    assert_eq!(p.battery_temp, Some(312));
    assert_eq!(p.flight_mode, Some(2));
    assert_eq!(p.gps_signal, Some(4));
    assert_eq!(p.satellites, Some(14));
    assert_eq!(p.rc_signal, Some(90));
    // sparse carry-forward: the second sample inherits every field
    let q = &log.points[1];
    assert_eq!(q.timestamp_ms, 2000);
    assert_eq!(q.latitude, Some(473977000));
    assert_eq!(q.battery_percent, Some(87));
}

#[test]
fn unknown_header_magic_is_unsupported() {
    let mut bytes = plain_log(5, &[boundary(1)]);
    bytes[0] = b'X';
    assert!(matches!(decode_log(&bytes, None), Err(DecodeError::UnsupportedFormat)));
}

#[test]
fn unknown_version_is_unsupported() {
    let bytes = plain_log(99, &[boundary(1)]);
    assert!(matches!(decode_log(&bytes, None), Err(DecodeError::UnsupportedFormat)));
    let bytes = plain_log(0, &[boundary(1)]);
    assert!(matches!(decode_log(&bytes, None), Err(DecodeError::UnsupportedFormat)));
}

#[test]
fn truncated_header_is_unsupported() {
    assert!(matches!(decode_log(b"DJIL", None), Err(DecodeError::UnsupportedFormat)));
    assert!(matches!(decode_log(b"", None), Err(DecodeError::UnsupportedFormat)));
}

#[test]
fn encrypted_version_without_credential_fails() {
    let bytes = encrypted_log(13, &[boundary(1)], b"keymaterial");
    assert!(matches!(decode_log(&bytes, None), Err(DecodeError::CredentialMissing)));
}

#[test]
fn encrypted_roundtrip_with_right_key() {
    let key = b"vendor-key-material";
    let bytes = encrypted_log(
        14,
        &[position(10000000, 20000000, 5000, 6000), boundary(500)],
        key,
    );
    let log = decode_log(&bytes, Some(key)).unwrap();
    assert_eq!(log.version, 14);
    assert_eq!(log.points.len(), 1);
    assert_eq!(log.points[0].latitude, Some(10000000));
    assert_eq!(log.warnings, 0);
}

#[test]
fn wrong_key_is_a_decryption_failure() {
    let bytes = encrypted_log(13, &[boundary(1)], b"right-key");
    assert!(matches!(
        decode_log(&bytes, Some(b"wrong-key")),
        Err(DecodeError::DecryptionFailed)
    ));
}

#[test]
fn corrupt_record_is_skipped_not_fatal() {
    // one unrecognized tag interleaved among valid records
    let bytes = plain_log(
        7,
        &[
            position(1000, 2000, 0, 0),
            boundary(100),
            rec(0x7f, &[1, 2, 3]),
            boundary(200),
            boundary(300),
        ],
    );
    let log = decode_log(&bytes, None).unwrap();
    assert_eq!(log.points.len(), 3);
    assert_eq!(log.warnings, 1);
    assert_eq!(log.points[2].timestamp_ms, 300);
}

#[test]
fn out_of_order_boundary_is_a_warning() {
    let bytes = plain_log(3, &[boundary(500), boundary(100), boundary(600)]);
    let log = decode_log(&bytes, None).unwrap();
    assert_eq!(log.points.len(), 2);
    assert_eq!(log.warnings, 1);
    assert!(log.points[0].timestamp_ms <= log.points[1].timestamp_ms);
}

#[test]
fn invalid_coordinates_are_a_warning() {
    let bytes = plain_log(3, &[position(2000000000, 0, 0, 0), boundary(10)]);
    let log = decode_log(&bytes, None).unwrap();
    assert_eq!(log.warnings, 1);
    assert_eq!(log.points[0].latitude, None);
}

#[test]
fn truncated_tail_keeps_the_valid_head() {
    let mut bytes = plain_log(3, &[boundary(100), boundary(200)]);
    // a record whose declared body runs past the end of the file
    bytes.extend_from_slice(&[5u8, 200u8, 1, 2]);
    let log = decode_log(&bytes, None).unwrap();
    assert_eq!(log.points.len(), 2);
    assert_eq!(log.warnings, 1);
}

#[test]
fn zero_model_and_serial_mean_unknown() {
    let mut bytes = header(2, 0, 0);
    bytes.extend_from_slice(&boundary(1));
    let log = decode_log(&bytes, None).unwrap();
    assert_eq!(log.drone_model, None);
    assert_eq!(log.drone_serial, None);
}

#[test]
fn negative_speed_is_a_warning() {
    let bytes = plain_log(3, &[velocity(-100, 0, 0, 0), boundary(10)]);
    let log = decode_log(&bytes, None).unwrap();
    assert_eq!(log.warnings, 1);
    assert_eq!(log.points[0].speed, None);
}

#[test]
fn battery_percent_over_hundred_is_a_warning() {
    let bytes = plain_log(3, &[battery(130, 15000, 0, 0), boundary(10)]);
    let log = decode_log(&bytes, None).unwrap();
    assert_eq!(log.warnings, 1);
    assert_eq!(log.points[0].battery_percent, None);
}

#[test]
fn unknown_flight_mode_is_a_warning() {
    let bytes = plain_log(3, &[status(42, 1, 2, 3), boundary(10)]);
    let log = decode_log(&bytes, None).unwrap();
    assert_eq!(log.warnings, 1);
    assert_eq!(log.points[0].flight_mode, None);
}

#[test]
fn wrong_declared_length_for_known_tag_is_skipped() {
    let bytes = plain_log(3, &[rec(1, &[1, 2, 3]), boundary(10)]);
    let log = decode_log(&bytes, None).unwrap();
    assert_eq!(log.warnings, 1);
    assert_eq!(log.points.len(), 1);
    assert_eq!(log.points[0].timestamp_ms, 10);
}
