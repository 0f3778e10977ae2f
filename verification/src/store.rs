//! The flight store: durable flight metadata and telemetry rows, bulk import
//! with duplicate detection, and the query surface the presentation layer
//! reads.
//!
//! An import is transactional: the flight and all its rows become visible
//! together, or nothing changes. A file's content hash is unique across the
//! store — importing byte-identical content twice is detected, not
//! duplicated. Statistics are derived once at import and stored.

use vstd::prelude::*;
use crate::decoder::decode_log;
use crate::decoder::points_sorted;
use crate::decoder::spec_header_ok;
use crate::decoder::spec_record_bytes;
use crate::decoder::spec_records;
use crate::decoder::spec_version;
use crate::decoder::DecodeError;
use crate::decoder::DecodeState;
use crate::decoder::DecodedLog;
use crate::decoder::ENCRYPTED_MIN_VERSION;
use crate::hashing::file_hash;
use crate::hashing::spec_file_hash;
use crate::stats::compute_stats;
use crate::stats::spec_stats_of;
use crate::telemetry::Flight;
use crate::telemetry::FlightDataResponse;
use crate::telemetry::FlightMetadata;
use crate::telemetry::FlightStats;
use crate::telemetry::ImportResult;
use crate::telemetry::TelemetryData;
use crate::telemetry::TelemetryPoint;
use crate::telemetry::TelemetryRecord;
use crate::telemetry::TrackPoint;
use crate::telemetry::spec_flight_of_meta;

verus! {

/// One persisted flight: its metadata row, its derived statistics, and its
/// telemetry rows in timestamp order.
pub struct StoredFlight {
    pub meta: FlightMetadata,
    pub stats: FlightStats,
    pub points: Vec<TelemetryPoint>,
}

/// Internal consistency of one persisted flight.
pub open spec fn flight_ok(f: StoredFlight) -> bool {
    &&& f.meta.file_hash is Some
    &&& f.meta.point_count == f.points@.len()
    &&& points_sorted(f.points@)
    &&& forall|k: int| 0 <= k < f.points@.len() ==> (#[trigger] f.points@[k]).spec_wf()
}

/// Whether some stored flight carries this content hash.
pub open spec fn spec_has_hash(flights: Seq<StoredFlight>, h: u64) -> bool {
    exists|i: int| 0 <= i < flights.len() && (#[trigger] flights[i]).meta.file_hash == Some(h)
}

/// Whether some stored flight carries this identifier.
pub open spec fn spec_has_id(flights: Seq<StoredFlight>, id: i64) -> bool {
    exists|i: int| 0 <= i < flights.len() && (#[trigger] flights[i]).meta.id == id
}

/// The in-memory flight store.
pub struct Store {
    pub flights: Vec<StoredFlight>,
    pub next_id: i64,
}

impl Store {
    /// Store invariant: identifiers are unique and below the allocator,
    /// content hashes are unique, and every flight is internally consistent.
    pub open spec fn wf(self) -> bool {
        &&& self.next_id >= 1
        &&& forall|i: int|
            0 <= i < self.flights@.len() ==> 1 <= (#[trigger] self.flights@[i]).meta.id
                < self.next_id
        &&& forall|i: int, j: int|
            0 <= i < j < self.flights@.len() ==> (#[trigger] self.flights@[i]).meta.id != (
            #[trigger] self.flights@[j]).meta.id
        &&& forall|i: int, j: int|
            0 <= i < j < self.flights@.len() ==> (#[trigger] self.flights@[i]).meta.file_hash != (
            #[trigger] self.flights@[j]).meta.file_hash
        &&& forall|i: int| 0 <= i < self.flights@.len() ==> flight_ok(#[trigger] self.flights@[i])
    }

    /// An empty store.
    pub fn new() -> (s: Store)
        ensures
            s.wf(),
            s.flights@.len() == 0,
            s.next_id == 1,
    {
        Store { flights: Vec::new(), next_id: 1 }
    }

    /// Whether a content hash is already stored.
    fn has_hash(&self, h: u64) -> (r: bool)
        ensures
            r == spec_has_hash(self.flights@, h),
    {
        let n = self.flights.len();
        let mut i: usize = 0;
        while i < n
            invariant
                0 <= i <= n,
                n == self.flights@.len(),
                forall|j: int| 0 <= j < i ==> (#[trigger] self.flights@[j]).meta.file_hash
                    != Some(h),
            decreases n - i,
        {
            let dup = match self.flights[i].meta.file_hash {
                Some(x) => x == h,
                None => false,
            };
            if dup {
                return true;
            }
            i = i + 1;
        }
        false
    }

    /// The index of the flight with an identifier.
    fn find_by_id(&self, id: i64) -> (r: Option<usize>)
        ensures
            match r {
                Some(i) => i < self.flights@.len() && self.flights@[i as int].meta.id == id,
                None => !spec_has_id(self.flights@, id),
            },
    {
        let n = self.flights.len();
        let mut i: usize = 0;
        while i < n
            invariant
                0 <= i <= n,
                n == self.flights@.len(),
                forall|j: int| 0 <= j < i ==> (#[trigger] self.flights@[j]).meta.id != id,
            decreases n - i,
        {
            if self.flights[i].meta.id == id {
                return Some(i);
            }
            i = i + 1;
        }
        None
    }

    /// What the freshly imported flight looks like.
    pub open spec fn spec_new_flight(
        f: StoredFlight,
        id: i64,
        file_name: Seq<char>,
        h: u64,
        model: Option<u8>,
        serial: Option<u64>,
        points: Seq<TelemetryPoint>,
    ) -> bool {
        &&& f.meta.id == id
        &&& f.meta.file_name@ == file_name
        &&& f.meta.file_hash == Some(h)
        &&& f.meta.drone_model == model
        &&& f.meta.drone_serial == serial
        &&& f.meta.point_count == points.len()
        &&& f.points@ == points
        &&& spec_stats_of(f.stats, points)
        &&& f.meta.start_time == (if points.len() > 0 {
            Some(points[0].timestamp_ms)
        } else {
            None::<u64>
        })
        &&& f.meta.end_time == (if points.len() > 0 {
            Some(points.last().timestamp_ms)
        } else {
            None::<u64>
        })
        &&& f.meta.duration_ms == (if points.len() > 0 {
            Some(f.stats.duration_ms)
        } else {
            None::<u64>
        })
        &&& f.meta.total_distance == Some(f.stats.total_distance_mm)
        &&& f.meta.max_altitude == f.stats.max_altitude_mm
        &&& f.meta.max_speed == f.stats.max_speed_mms
        &&& f.meta.home_lat == (match f.stats.home_location {
            Some(hl) => Some(hl.lat),
            None => None::<i64>,
        })
        &&& f.meta.home_lon == (match f.stats.home_location {
            Some(hl) => Some(hl.lon),
            None => None::<i64>,
        })
    }

    /// Import one decoded flight transactionally.
    ///
    /// A content hash already in the store means the file was imported
    /// before: the result says so and nothing changes. Otherwise the
    /// metadata row, the derived statistics and all telemetry rows become
    /// visible together under a fresh identifier.
    #[verifier::rlimit(100)]
    pub fn import(&mut self, file_name: String, h: u64, log: DecodedLog) -> (r: ImportResult)
        requires
            old(self).wf(),
            old(self).next_id < i64::MAX,
            points_sorted(log.points@),
            forall|k: int| 0 <= k < log.points@.len() ==> (#[trigger] log.points@[k]).spec_wf(),
        ensures
            final(self).wf(),
            spec_has_hash(old(self).flights@, h) ==> {
                &&& !r.success
                &&& r.flight_id is None
                &&& r.point_count == 0
                &&& *final(self) == *old(self)
            },
            !spec_has_hash(old(self).flights@, h) ==> {
                &&& r.success
                &&& r.flight_id == Some(old(self).next_id)
                &&& r.point_count == log.points@.len()
                &&& r.warnings == log.warnings
                &&& final(self).next_id == old(self).next_id + 1
                &&& final(self).flights@.len() == old(self).flights@.len() + 1
                &&& forall|k: int|
                    0 <= k < old(self).flights@.len() ==> final(self).flights@[k] == old(
                        self,
                    ).flights@[k]
                &&& Store::spec_new_flight(
                    final(self).flights@.last(),
                    old(self).next_id,
                    file_name@,
                    h,
                    log.drone_model,
                    log.drone_serial,
                    log.points@,
                )
            },
    {
        if self.has_hash(h) {
            return ImportResult {
                success: false,
                flight_id: None,
                message: "duplicate file: this log was already imported".to_owned(),
                point_count: 0,
                warnings: log.warnings,
            };
        }
        let stats = compute_stats(&log.points);
        let n_points = log.points.len();
        let id = self.next_id;
        let meta = FlightMetadata {
            id,
            file_name,
            file_hash: Some(h),
            drone_model: log.drone_model,
            drone_serial: log.drone_serial,
            start_time: if n_points > 0 {
                Some(log.points[0].timestamp_ms)
            } else {
                None
            },
            end_time: if n_points > 0 {
                Some(log.points[n_points - 1].timestamp_ms)
            } else {
                None
            },
            duration_ms: if n_points > 0 {
                Some(stats.duration_ms)
            } else {
                None
            },
            total_distance: Some(stats.total_distance_mm),
            max_altitude: stats.max_altitude_mm,
            max_speed: stats.max_speed_mms,
            home_lat: match stats.home_location {
                Some(hl) => Some(hl.lat),
                None => None,
            },
            home_lon: match stats.home_location {
                Some(hl) => Some(hl.lon),
                None => None,
            },
            point_count: n_points,
        };
        proof {
            if log.points@.len() > 0 {
                assert(log.points@.last() == log.points@[log.points@.len() - 1]);
            }
        }
        let row = StoredFlight { meta, stats, points: log.points };
        self.flights.push(row);
        self.next_id = id + 1;
        proof {
            let fs = final(self).flights@;
            let on = old(self).flights@.len() as int;
            assert forall|i: int, j: int|
                0 <= i < j < fs.len() implies (fs[i]).meta.id != (fs[j]).meta.id by {
                if j < on {
                } else {
                    assert(fs[j].meta.id == old(self).next_id);
                    assert(fs[i] == old(self).flights@[i]);
                }
            }
            assert forall|i: int, j: int|
                0 <= i < j < fs.len() implies (fs[i]).meta.file_hash != (fs[j]).meta.file_hash by {
                if j < on {
                } else {
                    assert(fs[i] == old(self).flights@[i]);
                    assert(fs[j].meta.file_hash == Some(h));
                }
            }
        }
        ImportResult {
            success: true,
            flight_id: Some(id),
            message: "imported".to_owned(),
            point_count: n_points,
            warnings: log.warnings,
        }
    }

    /// List the stored flights, most recent import first.
    pub fn list(&self) -> (r: Vec<Flight>)
        ensures
            r@.len() == self.flights@.len(),
            forall|i: int|
                0 <= i < r@.len() ==> spec_flight_of_meta(
                    #[trigger] r@[i],
                    self.flights@[self.flights@.len() - 1 - i].meta,
                ),
    {
        let n = self.flights.len();
        let mut r: Vec<Flight> = Vec::new();
        let mut i: usize = 0;
        while i < n
            invariant
                0 <= i <= n,
                n == self.flights@.len(),
                r@.len() == i,
                forall|k: int|
                    0 <= k < i ==> spec_flight_of_meta(
                        #[trigger] r@[k],
                        self.flights@[n - 1 - k].meta,
                    ),
            decreases n - i,
        {
            let m = &self.flights[n - 1 - i].meta;
            r.push(
                Flight {
                    id: m.id,
                    file_name: m.file_name.clone(),
                    drone_model: m.drone_model,
                    drone_serial: m.drone_serial,
                    start_time: m.start_time,
                    duration_ms: m.duration_ms,
                    total_distance: m.total_distance,
                    max_altitude: m.max_altitude,
                    max_speed: m.max_speed,
                    point_count: Some(m.point_count),
                },
            );
            i = i + 1;
        }
        r
    }

    /// The stored statistics of one flight.
    pub fn get_stats(&self, id: i64) -> (r: Option<FlightStats>)
        ensures
            match r {
                None => !spec_has_id(self.flights@, id),
                Some(s) => exists|i: int|
                    0 <= i < self.flights@.len() && (#[trigger] self.flights@[i]).meta.id == id
                        && s == self.flights@[i].stats,
            },
    {
        match self.find_by_id(id) {
            None => None,
            Some(i) => Some(self.flights[i].stats),
        }
    }

    /// Delete one flight: its metadata row and all its telemetry rows leave
    /// together. Other flights keep their place and order.
    pub fn delete(&mut self, id: i64) -> (r: bool)
        requires
            old(self).wf(),
        ensures
            final(self).wf(),
            final(self).next_id == old(self).next_id,
            !spec_has_id(old(self).flights@, id) ==> !r && *final(self) == *old(self),
            r ==> exists|i: int|
                0 <= i < old(self).flights@.len() && (#[trigger] old(self).flights@[i]).meta.id
                    == id && final(self).flights@ == old(self).flights@.remove(i),
            r == spec_has_id(old(self).flights@, id),
    {
        match self.find_by_id(id) {
            None => false,
            Some(i) => {
                self.flights.remove(i);
                proof {
                    let fs = final(self).flights@;
                    let os = old(self).flights@;
                    assert(fs == os.remove(i as int));
                    assert forall|a: int, b: int|
                        0 <= a < b < fs.len() implies (fs[a]).meta.id != (fs[b]).meta.id && (
                        fs[a]).meta.file_hash != (fs[b]).meta.file_hash by {
                        let a0 = if a < i {
                            a
                        } else {
                            a + 1
                        };
                        let b0 = if b < i {
                            b
                        } else {
                            b + 1
                        };
                        assert(fs[a] == os[a0]);
                        assert(fs[b] == os[b0]);
                    }
                    assert forall|k: int| 0 <= k < fs.len() implies flight_ok(fs[k]) by {
                        let k0 = if k < i {
                            k
                        } else {
                            k + 1
                        };
                        assert(fs[k] == os[k0]);
                    }
                    assert forall|k: int| #![trigger fs[k]]
                        0 <= k < fs.len() implies 1 <= fs[k].meta.id < final(self).next_id by {
                        let k0 = if k < i {
                            k
                        } else {
                            k + 1
                        };
                        assert(fs[k] == os[k0]);
                    }
                }
                true
            },
        }
    }

    /// The chart projection of one flight's rows.
    pub open spec fn spec_records_of(ps: Seq<TelemetryPoint>) -> Seq<TelemetryRecord> {
        Seq::new(ps.len(), |i: int| TelemetryRecord::spec_of_point(ps[i]))
    }

    /// The map track of one flight's rows: every sample with a position, in
    /// order, as `[lng, lat, alt]`; a missing altitude charts at zero.
    pub open spec fn spec_track_of(ps: Seq<TelemetryPoint>) -> Seq<TrackPoint>
        decreases ps.len(),
    {
        if ps.len() == 0 {
            Seq::empty()
        } else {
            Self::spec_track_of(ps.drop_last()) + (if ps.last().spec_has_position() {
                seq![
                    TrackPoint {
                        lng: ps.last().longitude->0,
                        lat: ps.last().latitude->0,
                        alt: match ps.last().altitude {
                            Some(a) => a,
                            None => 0,
                        },
                    },
                ]
            } else {
                Seq::empty()
            })
        }
    }

    /// Assemble the full read-side answer for one flight: summary, chart
    /// arrays with the time axis relative to flight start, and the map
    /// track. Samples without a position stay in the time series and are
    /// only skipped for the track.
    #[verifier::rlimit(100)]
    pub fn get(&self, id: i64) -> (r: Option<FlightDataResponse>)
        requires
            self.wf(),
        ensures
            match r {
                None => !spec_has_id(self.flights@, id),
                Some(resp) => exists|i: int|
                    #![auto]
                    0 <= i < self.flights@.len() && self.flights@[i].meta.id == id
                        && spec_flight_of_meta(resp.flight, self.flights@[i].meta)
                        && resp.telemetry.spec_matches(
                        Store::spec_records_of(self.flights@[i].points@),
                    ) && resp.track@ == Store::spec_track_of(self.flights@[i].points@),
            },
    {
        let idx = match self.find_by_id(id) {
            None => {
                return None;
            },
            Some(i) => i,
        };
        let f = &self.flights[idx];
        let m = &f.meta;
        let flight = Flight {
            id: m.id,
            file_name: m.file_name.clone(),
            drone_model: m.drone_model,
            drone_serial: m.drone_serial,
            start_time: m.start_time,
            duration_ms: m.duration_ms,
            total_distance: m.total_distance,
            max_altitude: m.max_altitude,
            max_speed: m.max_speed,
            point_count: Some(m.point_count),
        };
        let n = f.points.len();
        let mut records: Vec<TelemetryRecord> = Vec::new();
        let mut track: Vec<TrackPoint> = Vec::new();
        let mut i: usize = 0;
        proof {
            assert(f.points@.take(0) =~= Seq::<TelemetryPoint>::empty());
        }
        while i < n
            invariant
                0 <= i <= n,
                n == f.points@.len(),
                flight_ok(*f),
                points_sorted(f.points@),
                records@.len() == i,
                forall|k: int|
                    0 <= k < i ==> records@[k] == TelemetryRecord::spec_of_point(
                        #[trigger] f.points@[k],
                    ),
                track@ == Store::spec_track_of(f.points@.take(i as int)),
            decreases n - i,
        {
            let p = &f.points[i];
            records.push(TelemetryRecord::of_point(p));
            proof {
                assert(f.points@.take(i + 1).drop_last() =~= f.points@.take(i as int));
                assert(f.points@.take(i + 1).last() == f.points@[i as int]);
            }
            let has_position = match (p.latitude, p.longitude) {
                (Some(_), Some(_)) => true,
                _ => false,
            };
            if has_position {
                let lng = match p.longitude {
                    Some(v) => v,
                    None => 0,
                };
                let lat = match p.latitude {
                    Some(v) => v,
                    None => 0,
                };
                let alt = match p.altitude {
                    Some(v) => v,
                    None => 0,
                };
                track.push(TrackPoint { lng, lat, alt });
            }
            i = i + 1;
        }
        proof {
            assert(f.points@.take(n as int) =~= f.points@);
            assert(records@ =~= Store::spec_records_of(f.points@));
            assert forall|k: int| #![trigger records@[k]]
                0 <= k < records@.len() implies records@[0].timestamp_ms
                <= records@[k].timestamp_ms by {
                if records@.len() > 0 {
                    assert(f.points@[0].timestamp_ms <= f.points@[k].timestamp_ms);
                }
            }
        }
        let telemetry = TelemetryData::from_records(records.as_slice());
        Some(FlightDataResponse { flight, telemetry, track })
    }

    /// The duplicate-detection law: once a flight with a content hash is
    /// stored — as after any successful import, whose new row carries the
    /// hash of its bytes — the store reports that hash as present, so a
    /// second import of byte-identical content refuses and changes nothing
    /// (see the duplicate clause of [`Store::import`]); and under [`Store::wf`]
    /// no two stored rows ever carry the same hash.
    pub proof fn lemma_reimport_is_detected(self, h: u64)
        requires
            self.flights@.len() > 0,
            self.flights@.last().meta.file_hash == Some(h),
        ensures
            spec_has_hash(self.flights@, h),
            self.wf() ==> forall|i: int, j: int|
                0 <= i < j < self.flights@.len() ==> (#[trigger] self.flights@[i]).meta.file_hash
                    != (#[trigger] self.flights@[j]).meta.file_hash,
    {
        assert(self.flights@[self.flights@.len() - 1].meta.file_hash == Some(h));
    }

    /// The import entrypoint: hash the raw bytes, decode them with the given
    /// key material, and store the flight.
    ///
    /// Every fatal decode outcome — unsupported container, missing
    /// credential, failed decryption — and a duplicate import leave the
    /// store exactly as it was.
    pub fn import_file(&mut self, file_name: String, bytes: &[u8], key: Option<&[u8]>) -> (r:
        ImportResult)
        requires
            old(self).wf(),
            old(self).next_id < i64::MAX,
        ensures
            final(self).wf(),
            !r.success ==> *final(self) == *old(self),
            !spec_header_ok(bytes@) ==> !r.success,
            spec_header_ok(bytes@) && spec_version(bytes@) >= ENCRYPTED_MIN_VERSION && key is None
                ==> !r.success,
            (spec_header_ok(bytes@) && (spec_version(bytes@) < ENCRYPTED_MIN_VERSION || (
            key is Some && spec_record_bytes(bytes@, Some(key->0@)) is Some))) ==> {
                let rb = spec_record_bytes(
                    bytes@,
                    match key {
                        Some(k) => Some(k@),
                        None => None,
                    },
                );
                let pts = spec_records(rb->0, DecodeState::init()).points;
                let warns = spec_records(rb->0, DecodeState::init()).warnings;
                &&& spec_has_hash(old(self).flights@, spec_file_hash(bytes@)) ==> !r.success
                &&& !spec_has_hash(old(self).flights@, spec_file_hash(bytes@)) ==> {
                    &&& r.success
                    &&& r.flight_id == Some(old(self).next_id)
                    &&& r.point_count == pts.len()
                    &&& r.warnings == warns
                    &&& final(self).flights@.len() == old(self).flights@.len() + 1
                    &&& forall|k: int|
                        0 <= k < old(self).flights@.len() ==> final(self).flights@[k] == old(
                            self,
                        ).flights@[k]
                    &&& Store::spec_new_flight(
                        final(self).flights@.last(),
                        old(self).next_id,
                        file_name@,
                        spec_file_hash(bytes@),
                        crate::decoder::spec_model(bytes@),
                        crate::decoder::spec_serial(bytes@),
                        pts,
                    )
                }
            },
    {
        match decode_log(bytes, key) {
            Err(e) => {
                let message = match e {
                    DecodeError::UnsupportedFormat => "unsupported log format".to_owned(),
                    DecodeError::CredentialMissing => "credential not configured".to_owned(),
                    DecodeError::DecryptionFailed => "decryption failed".to_owned(),
                };
                ImportResult { success: false, flight_id: None, message, point_count: 0, warnings: 0 }
            },
            Ok(log) => {
                let h = file_hash(bytes);
                self.import(file_name, h, log)
            },
        }
    }
}

} // verus!
