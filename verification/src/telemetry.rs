//! Data model: decoded telemetry samples, flight metadata, and the read-side
//! projections served to the presentation layer.
//!
//! All quantities are fixed-point integers with a documented unit: angles in
//! centi-degrees, coordinates in 1e-7 degrees, lengths in millimeters, speeds
//! in millimeters per second, voltages in millivolts, currents in milliamperes,
//! temperatures in deci-degrees Celsius, times in milliseconds.

use vstd::prelude::*;

verus! {

/// One decoded telemetry sample. Every field except the timestamp is
/// independently optional: the source format emits sparse updates, and a
/// sample only carries the fields known at its sampling boundary.
#[derive(Clone, Copy, PartialEq, Eq, Structural, Debug)]
pub struct TelemetryPoint {
    /// Milliseconds since the log epoch (drone power-on).
    pub timestamp_ms: u64,
    /// Latitude in 1e-7 degrees.
    pub latitude: Option<i64>,
    /// Longitude in 1e-7 degrees.
    pub longitude: Option<i64>,
    /// Altitude relative to the home point, in millimeters.
    pub altitude: Option<i64>,
    /// Absolute altitude, in millimeters.
    pub altitude_abs: Option<i64>,
    /// Ground speed in millimeters per second.
    pub speed: Option<i64>,
    /// Velocity components in millimeters per second.
    pub velocity_x: Option<i64>,
    pub velocity_y: Option<i64>,
    pub velocity_z: Option<i64>,
    /// Aircraft attitude in centi-degrees.
    pub pitch: Option<i64>,
    pub roll: Option<i64>,
    pub yaw: Option<i64>,
    /// Gimbal attitude in centi-degrees.
    pub gimbal_pitch: Option<i64>,
    pub gimbal_roll: Option<i64>,
    pub gimbal_yaw: Option<i64>,
    /// Battery charge in percent, 0 to 100.
    pub battery_percent: Option<i32>,
    /// Battery voltage in millivolts.
    pub battery_voltage: Option<i64>,
    /// Battery current in milliamperes.
    pub battery_current: Option<i64>,
    /// Battery temperature in deci-degrees Celsius.
    pub battery_temp: Option<i64>,
    /// Flight mode code; see [`flight_mode_name`].
    pub flight_mode: Option<u8>,
    /// GPS signal level.
    pub gps_signal: Option<i32>,
    /// Number of GPS satellites.
    pub satellites: Option<i32>,
    /// Remote-control signal level.
    pub rc_signal: Option<i32>,
}

impl TelemetryPoint {
    /// A sample with only its timestamp known.
    pub fn empty() -> (p: TelemetryPoint)
        ensures
            p == TelemetryPoint::spec_empty(),
    {
        TelemetryPoint {
            timestamp_ms: 0,
            latitude: None,
            longitude: None,
            altitude: None,
            altitude_abs: None,
            speed: None,
            velocity_x: None,
            velocity_y: None,
            velocity_z: None,
            pitch: None,
            roll: None,
            yaw: None,
            gimbal_pitch: None,
            gimbal_roll: None,
            gimbal_yaw: None,
            battery_percent: None,
            battery_voltage: None,
            battery_current: None,
            battery_temp: None,
            flight_mode: None,
            gps_signal: None,
            satellites: None,
            rc_signal: None,
        }
    }

    /// The all-unknown sample that record decoding starts from.
    pub open spec fn spec_empty() -> TelemetryPoint {
        TelemetryPoint {
            timestamp_ms: 0,
            latitude: None,
            longitude: None,
            altitude: None,
            altitude_abs: None,
            speed: None,
            velocity_x: None,
            velocity_y: None,
            velocity_z: None,
            pitch: None,
            roll: None,
            yaw: None,
            gimbal_pitch: None,
            gimbal_roll: None,
            gimbal_yaw: None,
            battery_percent: None,
            battery_voltage: None,
            battery_current: None,
            battery_temp: None,
            flight_mode: None,
            gps_signal: None,
            satellites: None,
            rc_signal: None,
        }
    }

    /// Whether the sample carries a full position fix.
    pub open spec fn spec_has_position(self) -> bool {
        self.latitude is Some && self.longitude is Some
    }

    /// Domain invariant the decoder establishes for every sample it emits:
    /// coordinates within their geographic range, speed non-negative.
    pub open spec fn spec_wf(self) -> bool {
        &&& self.latitude is Some ==> -900000000 <= self.latitude->0 <= 900000000
        &&& self.longitude is Some ==> -1800000000 <= self.longitude->0 <= 1800000000
        &&& self.speed is Some ==> 0 <= self.speed->0 <= 0x7fffffff
    }
}

/// The display name of a flight mode code. Codes outside the known set are
/// rejected by the decoder, so every stored code has a name.
pub fn flight_mode_name(code: u8) -> (name: String)
    ensures
        name@ == spec_flight_mode_name(code),
{
    match code {
        0u8 => "Manual".to_owned(),
        1u8 => "Atti".to_owned(),
        2u8 => "GPS".to_owned(),
        3u8 => "Sport".to_owned(),
        4u8 => "Tripod".to_owned(),
        5u8 => "Waypoint".to_owned(),
        6u8 => "ReturnToHome".to_owned(),
        7u8 => "AutoLanding".to_owned(),
        _ => "Unknown".to_owned(),
    }
}

/// Spec-level flight mode naming.
pub open spec fn spec_flight_mode_name(code: u8) -> Seq<char> {
    if code == 0 {
        "Manual"@
    } else if code == 1 {
        "Atti"@
    } else if code == 2 {
        "GPS"@
    } else if code == 3 {
        "Sport"@
    } else if code == 4 {
        "Tripod"@
    } else if code == 5 {
        "Waypoint"@
    } else if code == 6 {
        "ReturnToHome"@
    } else if code == 7 {
        "AutoLanding"@
    } else {
        "Unknown"@
    }
}

/// The display name of a drone model code from the log header.
pub fn model_name(code: u8) -> (name: String)
    ensures
        name@ == spec_model_name(code),
{
    match code {
        1u8 => "Mini 2".to_owned(),
        2u8 => "Mini 3 Pro".to_owned(),
        3u8 => "Air 2S".to_owned(),
        4u8 => "Mavic 3".to_owned(),
        5u8 => "Avata".to_owned(),
        6u8 => "Mini 4 Pro".to_owned(),
        _ => "Unknown".to_owned(),
    }
}

/// Spec-level model naming.
pub open spec fn spec_model_name(code: u8) -> Seq<char> {
    if code == 1 {
        "Mini 2"@
    } else if code == 2 {
        "Mini 3 Pro"@
    } else if code == 3 {
        "Air 2S"@
    } else if code == 4 {
        "Mavic 3"@
    } else if code == 5 {
        "Avata"@
    } else if code == 6 {
        "Mini 4 Pro"@
    } else {
        "Unknown"@
    }
}

/// Flight metadata: one row per imported file, written once at import.
pub struct FlightMetadata {
    /// Store-assigned identifier.
    pub id: i64,
    /// Name of the imported file.
    pub file_name: String,
    /// Content hash of the raw file bytes, used for duplicate detection.
    pub file_hash: Option<u64>,
    /// Drone model code from the header; see [`model_name`].
    pub drone_model: Option<u8>,
    /// Drone serial number from the header.
    pub drone_serial: Option<u64>,
    /// Timestamp of the first sample, in milliseconds.
    pub start_time: Option<u64>,
    /// Timestamp of the last sample, in milliseconds.
    pub end_time: Option<u64>,
    /// `end_time - start_time`, in milliseconds.
    pub duration_ms: Option<u64>,
    /// Cumulative track length in millimeters.
    pub total_distance: Option<u64>,
    /// Maximum relative altitude in millimeters.
    pub max_altitude: Option<i64>,
    /// Maximum ground speed in millimeters per second.
    pub max_speed: Option<i64>,
    /// Home-point latitude in 1e-7 degrees.
    pub home_lat: Option<i64>,
    /// Home-point longitude in 1e-7 degrees.
    pub home_lon: Option<i64>,
    /// Number of telemetry rows stored for this flight.
    pub point_count: usize,
}

/// Flight summary for list display.
pub struct Flight {
    pub id: i64,
    pub file_name: String,
    pub drone_model: Option<u8>,
    pub drone_serial: Option<u64>,
    /// Start timestamp in milliseconds.
    pub start_time: Option<u64>,
    pub duration_ms: Option<u64>,
    /// Millimeters.
    pub total_distance: Option<u64>,
    /// Millimeters.
    pub max_altitude: Option<i64>,
    /// Millimeters per second.
    pub max_speed: Option<i64>,
    pub point_count: Option<usize>,
}

/// Whether a list projection faithfully reflects a metadata row.
pub open spec fn spec_flight_of_meta(f: Flight, m: FlightMetadata) -> bool {
    &&& f.id == m.id
    &&& f.file_name@ == m.file_name@
    &&& f.drone_model == m.drone_model
    &&& f.drone_serial == m.drone_serial
    &&& f.start_time == m.start_time
    &&& f.duration_ms == m.duration_ms
    &&& f.total_distance == m.total_distance
    &&& f.max_altitude == m.max_altitude
    &&& f.max_speed == m.max_speed
    &&& f.point_count == Some(m.point_count)
}

/// Telemetry sample projected for charting.
#[derive(Clone, Copy, PartialEq, Eq, Structural, Debug)]
pub struct TelemetryRecord {
    pub timestamp_ms: u64,
    pub latitude: Option<i64>,
    pub longitude: Option<i64>,
    /// Millimeters.
    pub altitude: Option<i64>,
    /// Millimeters per second.
    pub speed: Option<i64>,
    pub battery_percent: Option<i32>,
    /// Centi-degrees.
    pub pitch: Option<i64>,
    pub roll: Option<i64>,
    pub yaw: Option<i64>,
    pub satellites: Option<i32>,
    pub flight_mode: Option<u8>,
}

impl TelemetryRecord {
    /// The chart projection of a stored sample.
    pub open spec fn spec_of_point(p: TelemetryPoint) -> TelemetryRecord {
        TelemetryRecord {
            timestamp_ms: p.timestamp_ms,
            latitude: p.latitude,
            longitude: p.longitude,
            altitude: p.altitude,
            speed: p.speed,
            battery_percent: p.battery_percent,
            pitch: p.pitch,
            roll: p.roll,
            yaw: p.yaw,
            satellites: p.satellites,
            flight_mode: p.flight_mode,
        }
    }

    /// Project a stored sample down to the fields the charts use.
    pub fn of_point(p: &TelemetryPoint) -> (r: TelemetryRecord)
        ensures
            r == TelemetryRecord::spec_of_point(*p),
    {
        TelemetryRecord {
            timestamp_ms: p.timestamp_ms,
            latitude: p.latitude,
            longitude: p.longitude,
            altitude: p.altitude,
            speed: p.speed,
            battery_percent: p.battery_percent,
            pitch: p.pitch,
            roll: p.roll,
            yaw: p.yaw,
            satellites: p.satellites,
            flight_mode: p.flight_mode,
        }
    }
}

/// One point of the map track: `[lng, lat, alt]` in the source's fixed-point
/// units (1e-7 degrees, 1e-7 degrees, millimeters).
#[derive(Clone, Copy, PartialEq, Eq, Structural, Debug)]
pub struct TrackPoint {
    pub lng: i64,
    pub lat: i64,
    pub alt: i64,
}

/// Telemetry in field-of-arrays layout, aligned by common index, for charting.
pub struct TelemetryData {
    /// Time axis relative to flight start, in milliseconds.
    pub time_ms: Vec<u64>,
    /// Relative altitude series, millimeters.
    pub altitude: Vec<Option<i64>>,
    /// Ground speed series, millimeters per second.
    pub speed: Vec<Option<i64>>,
    /// Battery percent series.
    pub battery: Vec<Option<i32>>,
    /// GPS satellite count series.
    pub satellites: Vec<Option<i32>>,
    /// Pitch series, centi-degrees.
    pub pitch: Vec<Option<i64>>,
    /// Roll series, centi-degrees.
    pub roll: Vec<Option<i64>>,
    /// Yaw series, centi-degrees.
    pub yaw: Vec<Option<i64>>,
}

impl TelemetryData {
    /// Whether each per-field array line up with the record sequence.
    pub open spec fn spec_matches(self, records: Seq<TelemetryRecord>) -> bool {
        let base = if records.len() > 0 {
            records[0].timestamp_ms as int
        } else {
            0
        };
        &&& self.time_ms@.len() == records.len()
        &&& self.altitude@.len() == records.len()
        &&& self.speed@.len() == records.len()
        &&& self.battery@.len() == records.len()
        &&& self.satellites@.len() == records.len()
        &&& self.pitch@.len() == records.len()
        &&& self.roll@.len() == records.len()
        &&& self.yaw@.len() == records.len()
        &&& forall|i: int|
            0 <= i < records.len() ==> self.time_ms@[i] == records[i].timestamp_ms - base
        &&& forall|i: int| 0 <= i < records.len() ==> self.altitude@[i] == records[i].altitude
        &&& forall|i: int| 0 <= i < records.len() ==> self.speed@[i] == records[i].speed
        &&& forall|i: int|
            0 <= i < records.len() ==> self.battery@[i] == records[i].battery_percent
        &&& forall|i: int|
            0 <= i < records.len() ==> self.satellites@[i] == records[i].satellites
        &&& forall|i: int| 0 <= i < records.len() ==> self.pitch@[i] == records[i].pitch
        &&& forall|i: int| 0 <= i < records.len() ==> self.roll@[i] == records[i].roll
        &&& forall|i: int| 0 <= i < records.len() ==> self.yaw@[i] == records[i].yaw
    }

    /// Build the field-of-arrays projection of a time-ordered record slice.
    ///
    /// The time axis is relative to the first record: `time_ms[0] == 0` and
    /// `time_ms[i] == records[i].timestamp_ms - records[0].timestamp_ms`, so it
    /// is non-decreasing whenever the records are.
    pub fn from_records(records: &[TelemetryRecord]) -> (data: TelemetryData)
        requires
            forall|i: int|
                0 <= i < records@.len() ==> records@[0].timestamp_ms <= (
                #[trigger] records@[i]).timestamp_ms,
        ensures
            data.spec_matches(records@),
    {
        let n = records.len();
        let base: u64 = if n > 0 {
            records[0].timestamp_ms
        } else {
            0
        };
        let mut time_ms: Vec<u64> = Vec::new();
        let mut altitude: Vec<Option<i64>> = Vec::new();
        let mut speed: Vec<Option<i64>> = Vec::new();
        let mut battery: Vec<Option<i32>> = Vec::new();
        let mut satellites: Vec<Option<i32>> = Vec::new();
        let mut pitch: Vec<Option<i64>> = Vec::new();
        let mut roll: Vec<Option<i64>> = Vec::new();
        let mut yaw: Vec<Option<i64>> = Vec::new();
        let mut i: usize = 0;
        while i < n
            invariant
                n == records@.len(),
                i <= n,
                forall|k: int|
                    0 <= k < n ==> records@[0].timestamp_ms <= (
                    #[trigger] records@[k]).timestamp_ms,
                n > 0 ==> base == records@[0].timestamp_ms,
                time_ms@.len() == i,
                altitude@.len() == i,
                speed@.len() == i,
                battery@.len() == i,
                satellites@.len() == i,
                pitch@.len() == i,
                roll@.len() == i,
                yaw@.len() == i,
                forall|k: int| 0 <= k < i ==> time_ms@[k] == records@[k].timestamp_ms - base,
                forall|k: int| 0 <= k < i ==> altitude@[k] == records@[k].altitude,
                forall|k: int| 0 <= k < i ==> speed@[k] == records@[k].speed,
                forall|k: int| 0 <= k < i ==> battery@[k] == records@[k].battery_percent,
                forall|k: int| 0 <= k < i ==> satellites@[k] == records@[k].satellites,
                forall|k: int| 0 <= k < i ==> pitch@[k] == records@[k].pitch,
                forall|k: int| 0 <= k < i ==> roll@[k] == records@[k].roll,
                forall|k: int| 0 <= k < i ==> yaw@[k] == records@[k].yaw,
            decreases n - i,
        {
            let r = records[i];
            time_ms.push(r.timestamp_ms - base);
            altitude.push(r.altitude);
            speed.push(r.speed);
            battery.push(r.battery_percent);
            satellites.push(r.satellites);
            pitch.push(r.pitch);
            roll.push(r.roll);
            yaw.push(r.yaw);
            i = i + 1;
        }
        TelemetryData { time_ms, altitude, speed, battery, satellites, pitch, roll, yaw }
    }
}

/// Full read-side answer for one flight: summary, chart arrays, map track.
pub struct FlightDataResponse {
    pub flight: Flight,
    pub telemetry: TelemetryData,
    pub track: Vec<TrackPoint>,
}

/// Outcome of one import attempt; transient, never persisted.
pub struct ImportResult {
    pub success: bool,
    pub flight_id: Option<i64>,
    pub message: String,
    pub point_count: usize,
    /// Number of record-level problems skipped during decoding.
    pub warnings: u64,
}

/// Home-point coordinate in 1e-7 degrees.
#[derive(Clone, Copy, PartialEq, Eq, Structural, Debug)]
pub struct LatLon {
    pub lat: i64,
    pub lon: i64,
}

/// Derived statistics for one flight, computed once at import.
#[derive(Clone, Copy, PartialEq, Eq, Structural, Debug)]
pub struct FlightStats {
    /// Milliseconds between first and last sample.
    pub duration_ms: u64,
    /// Cumulative track length in millimeters.
    pub total_distance_mm: u64,
    /// Millimeters.
    pub max_altitude_mm: Option<i64>,
    /// Millimeters per second.
    pub max_speed_mms: Option<i64>,
    /// Millimeters per second, mean of the known speed samples.
    pub avg_speed_mms: Option<i64>,
    /// Lowest known battery percentage.
    pub min_battery: Option<i32>,
    pub home_location: Option<LatLon>,
}

/// The law behind the chart time axis: for time-ordered records the
/// projection starts at zero, each entry is the offset of its record from the
/// first, and the axis is non-decreasing.
pub proof fn lemma_time_projection(data: TelemetryData, records: Seq<TelemetryRecord>)
    requires
        data.spec_matches(records),
        forall|i: int, j: int|
            0 <= i <= j < records.len() ==> records[i].timestamp_ms <= records[j].timestamp_ms,
    ensures
        records.len() > 0 ==> data.time_ms@[0] == 0,
        forall|i: int|
            0 <= i < records.len() ==> data.time_ms@[i] == records[i].timestamp_ms
                - records[0].timestamp_ms,
        forall|i: int, j: int| 0 <= i <= j < records.len() ==> data.time_ms@[i] <= data.time_ms@[j],
{
    assert forall|i: int, j: int|
        0 <= i <= j < records.len() implies data.time_ms@[i] <= data.time_ms@[j] by {
        assert(records[i].timestamp_ms <= records[j].timestamp_ms);
    }
}

} // verus!
