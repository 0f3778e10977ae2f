//! The store: transactional import with duplicate detection, derived
//! statistics, queries, and deletion.

use dji_log_viewer::store::Store;

fn header(version: u8, model: u8, serial: u64) -> Vec<u8> {
    let mut v = vec![b'D', b'J', b'I', b'L', version, model];
    v.extend_from_slice(&serial.to_le_bytes());
    v.extend_from_slice(&[0u8, 0u8]);
    v
}

fn rec(tag: u8, body: &[u8]) -> Vec<u8> {
    let mut v = vec![tag, body.len() as u8];
    v.extend_from_slice(body);
    v
}

fn boundary(ts: u64) -> Vec<u8> {
    rec(1, &ts.to_le_bytes())
}

fn position(lat: i32, lon: i32, alt: i32, alt_abs: i32) -> Vec<u8> {
    let mut b = Vec::new();
    b.extend_from_slice(&lat.to_le_bytes());
    b.extend_from_slice(&lon.to_le_bytes());
    b.extend_from_slice(&alt.to_le_bytes());
    b.extend_from_slice(&alt_abs.to_le_bytes());
    rec(2, &b)
}

fn velocity(speed: i32, vx: i32, vy: i32, vz: i32) -> Vec<u8> {
    let mut b = Vec::new();
    b.extend_from_slice(&speed.to_le_bytes());
    b.extend_from_slice(&vx.to_le_bytes());
    b.extend_from_slice(&vy.to_le_bytes());
    b.extend_from_slice(&vz.to_le_bytes());
    rec(3, &b)
}

fn battery(percent: u8, mv: u16, ma: i16, temp: i16) -> Vec<u8> {
    let mut b = vec![percent];
    b.extend_from_slice(&mv.to_le_bytes());
    b.extend_from_slice(&ma.to_le_bytes());
    b.extend_from_slice(&temp.to_le_bytes());
    rec(6, &b)
}

fn plain_log(version: u8, records: &[Vec<u8>]) -> Vec<u8> {
    let mut v = header(version, 3, 42);
    for r in records {
        v.extend_from_slice(r);
    }
    v
}

fn simple_log() -> Vec<u8> {
    plain_log(
        5,
        &[
            position(100000, 200000, 15000, 15000),
            velocity(4000, 0, 0, 0),
            battery(95, 15000, 100, 250),
            boundary(10_000),
            velocity(6000, 0, 0, 0),
            battery(60, 14000, 100, 260),
            boundary(20_000),
        ],
    )
}

#[test]
fn import_then_query() {
    let mut store = Store::new();
    let r = store.import_file("flight1.log".to_string(), &simple_log(), None);
    assert!(r.success);
    assert_eq!(r.flight_id, Some(1));
    assert_eq!(r.point_count, 2);
    assert_eq!(r.warnings, 0);

    let flights = store.list();
    assert_eq!(flights.len(), 1);
    assert_eq!(flights[0].id, 1);
    assert_eq!(flights[0].file_name, "flight1.log");
    assert_eq!(flights[0].drone_model, Some(3));
    assert_eq!(flights[0].drone_serial, Some(42));
    assert_eq!(flights[0].start_time, Some(10_000));
    assert_eq!(flights[0].duration_ms, Some(10_000));
    assert_eq!(flights[0].point_count, Some(2));
}

#[test]
fn reimport_identical_bytes_is_refused() {
    let mut store = Store::new();
    let bytes = simple_log();
    let first = store.import_file("a.log".to_string(), &bytes, None);
    assert!(first.success);
    // byte-identical content, even under another name, is a duplicate
    let second = store.import_file("b.log".to_string(), &bytes, None);
    assert!(!second.success);
    assert_eq!(second.flight_id, None);
    // no duplicate metadata row
    assert_eq!(store.list().len(), 1);
}

#[test]
fn unsupported_version_leaves_store_untouched() {
    let mut store = Store::new();
    let bytes = plain_log(99, &[boundary(1)]);
    let r = store.import_file("bad.log".to_string(), &bytes, None);
    assert!(!r.success);
    assert_eq!(r.flight_id, None);
    assert_eq!(store.list().len(), 0);
}

#[test]
fn missing_credential_leaves_store_untouched() {
    // an encrypted-version container, no key material supplied
    let bytes = header(13, 1, 9);
    let mut store = Store::new();
    let r = store.import_file("enc.log".to_string(), &bytes, None);
    assert!(!r.success);
    assert_eq!(store.list().len(), 0);
}

#[test]
fn corrupt_record_still_imports_with_warning() {
    let mut store = Store::new();
    let bytes = plain_log(
        5,
        &[
            boundary(100),
            rec(0x55, &[9, 9, 9, 9]),
            boundary(200),
            boundary(300),
        ],
    );
    let r = store.import_file("warn.log".to_string(), &bytes, None);
    assert!(r.success);
    assert_eq!(r.point_count, 3);
    assert_eq!(r.warnings, 1);
}

#[test]
fn time_axis_is_relative_and_in_order() {
    let mut store = Store::new();
    let bytes = plain_log(4, &[boundary(5000), boundary(6500), boundary(9000)]);
    let r = store.import_file("t.log".to_string(), &bytes, None);
    assert!(r.success);
    let resp = store.get(r.flight_id.unwrap()).unwrap();
    assert_eq!(resp.telemetry.time_ms, vec![0, 1500, 4000]);
}

#[test]
fn track_skips_positionless_points_but_series_keeps_them() {
    let mut store = Store::new();
    let bytes = plain_log(
        4,
        &[
            boundary(100), // no position yet
            position(111, 222, 333, 333),
            boundary(200),
        ],
    );
    let r = store.import_file("trk.log".to_string(), &bytes, None);
    let resp = store.get(r.flight_id.unwrap()).unwrap();
    assert_eq!(resp.telemetry.time_ms.len(), 2);
    assert_eq!(resp.track.len(), 1);
    assert_eq!(resp.track[0].lng, 222);
    assert_eq!(resp.track[0].lat, 111);
    assert_eq!(resp.track[0].alt, 333);
}

#[test]
fn total_distance_sums_the_two_legs() {
    // three fixes on one meridian, 0.01 and 0.02 degrees of latitude apart:
    // the great-circle legs are 1111.950 m and 2223.900 m
    let mut store = Store::new();
    let bytes = plain_log(
        4,
        &[
            position(0, 0, 0, 0),
            boundary(1000),
            position(100_000, 0, 0, 0),
            boundary(2000),
            position(300_000, 0, 0, 0),
            boundary(3000),
        ],
    );
    let r = store.import_file("dist.log".to_string(), &bytes, None);
    assert!(r.success);
    let stats = store.get_stats(r.flight_id.unwrap()).unwrap();
    assert_eq!(stats.total_distance_mm, 1_111_950 + 2_223_900);
}

#[test]
fn stats_extrema_and_means() {
    let mut store = Store::new();
    let r = store.import_file("s.log".to_string(), &simple_log(), None);
    let stats = store.get_stats(r.flight_id.unwrap()).unwrap();
    assert_eq!(stats.duration_ms, 10_000);
    assert_eq!(stats.max_altitude_mm, Some(15000));
    assert_eq!(stats.max_speed_mms, Some(6000));
    assert_eq!(stats.avg_speed_mms, Some(5000));
    assert_eq!(stats.min_battery, Some(60));
    let home = stats.home_location.unwrap();
    assert_eq!(home.lat, 100000);
    assert_eq!(home.lon, 200000);
}

#[test]
fn get_missing_flight_is_none() {
    let store = Store::new();
    assert!(store.get(7).is_none());
    assert!(store.get_stats(7).is_none());
}

#[test]
fn delete_removes_flight_and_rows_together() {
    let mut store = Store::new();
    let r1 = store.import_file("one.log".to_string(), &simple_log(), None);
    let bytes2 = plain_log(4, &[boundary(1), boundary(2)]);
    let r2 = store.import_file("two.log".to_string(), &bytes2, None);
    assert!(store.delete(r1.flight_id.unwrap()));
    let flights = store.list();
    assert_eq!(flights.len(), 1);
    assert_eq!(flights[0].id, r2.flight_id.unwrap());
    assert!(store.get(r1.flight_id.unwrap()).is_none());
    // deleting again reports absence
    assert!(!store.delete(r1.flight_id.unwrap()));
}

#[test]
fn list_is_most_recent_first() {
    let mut store = Store::new();
    store.import_file("one.log".to_string(), &plain_log(4, &[boundary(1)]), None);
    store.import_file("two.log".to_string(), &plain_log(4, &[boundary(2)]), None);
    let flights = store.list();
    assert_eq!(flights.len(), 2);
    assert_eq!(flights[0].file_name, "two.log");
    assert_eq!(flights[1].file_name, "one.log");
}

#[test]
fn empty_log_imports_with_no_points() {
    let mut store = Store::new();
    let bytes = header(4, 1, 5);
    let r = store.import_file("empty.log".to_string(), &bytes, None);
    assert!(r.success);
    assert_eq!(r.point_count, 0);
    let flights = store.list();
    assert_eq!(flights[0].start_time, None);
    assert_eq!(flights[0].duration_ms, None);
}
