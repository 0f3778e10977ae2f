//! Derived statistics of a decoded point stream, computed once at import:
//! time bounds, extrema, mean speed, lowest battery, home point, and the
//! cumulative track length over consecutive GPS fixes.

use vstd::prelude::*;
use crate::distance::leg_distance_mm;
use crate::distance::spec_leg_mm;
use crate::distance::LEG_MAX_MM;
use crate::telemetry::FlightStats;
use crate::telemetry::LatLon;
use crate::telemetry::TelemetryPoint;

verus! {

/// The larger of an accumulated maximum and an optional sample.
pub open spec fn opt_max_i64(a: Option<i64>, b: Option<i64>) -> Option<i64> {
    match b {
        None => a,
        Some(x) => match a {
            None => Some(x),
            Some(y) => if x > y {
                Some(x)
            } else {
                Some(y)
            },
        },
    }
}

/// The smaller of an accumulated minimum and an optional sample.
pub open spec fn opt_min_i32(a: Option<i32>, b: Option<i32>) -> Option<i32> {
    match b {
        None => a,
        Some(x) => match a {
            None => Some(x),
            Some(y) => if x < y {
                Some(x)
            } else {
                Some(y)
            },
        },
    }
}

/// Highest known relative altitude, in millimeters.
pub open spec fn spec_max_altitude(ps: Seq<TelemetryPoint>) -> Option<i64>
    decreases ps.len(),
{
    if ps.len() == 0 {
        None
    } else {
        opt_max_i64(spec_max_altitude(ps.drop_last()), ps.last().altitude)
    }
}

/// Highest known ground speed, in millimeters per second.
pub open spec fn spec_max_speed(ps: Seq<TelemetryPoint>) -> Option<i64>
    decreases ps.len(),
{
    if ps.len() == 0 {
        None
    } else {
        opt_max_i64(spec_max_speed(ps.drop_last()), ps.last().speed)
    }
}

/// Lowest known battery percentage.
pub open spec fn spec_min_battery(ps: Seq<TelemetryPoint>) -> Option<i32>
    decreases ps.len(),
{
    if ps.len() == 0 {
        None
    } else {
        opt_min_i32(spec_min_battery(ps.drop_last()), ps.last().battery_percent)
    }
}

/// Sum of the known ground speeds.
pub open spec fn spec_speed_sum(ps: Seq<TelemetryPoint>) -> int
    decreases ps.len(),
{
    if ps.len() == 0 {
        0
    } else {
        spec_speed_sum(ps.drop_last()) + (match ps.last().speed {
            Some(v) => v as int,
            None => 0,
        })
    }
}

/// How many samples carry a ground speed.
pub open spec fn spec_speed_count(ps: Seq<TelemetryPoint>) -> nat
    decreases ps.len(),
{
    if ps.len() == 0 {
        0
    } else {
        spec_speed_count(ps.drop_last()) + (if ps.last().speed is Some {
            1nat
        } else {
            0nat
        })
    }
}

/// Mean of the known ground speeds, rounded down; absent without any.
pub open spec fn spec_avg_speed(ps: Seq<TelemetryPoint>) -> Option<i64> {
    if spec_speed_count(ps) > 0 {
        Some((spec_speed_sum(ps) / spec_speed_count(ps) as int) as i64)
    } else {
        None
    }
}

/// The home point: the first sample with a full position fix.
pub open spec fn spec_home(ps: Seq<TelemetryPoint>) -> Option<LatLon>
    decreases ps.len(),
{
    if ps.len() == 0 {
        None
    } else if ps[0].spec_has_position() {
        Some(LatLon { lat: ps[0].latitude->0, lon: ps[0].longitude->0 })
    } else {
        spec_home(ps.skip(1))
    }
}

/// Cumulative track length from a previous fix onward: every sample with a
/// position contributes the leg from the fix before it.
pub open spec fn spec_total_from(ps: Seq<TelemetryPoint>, prev: Option<LatLon>) -> int
    decreases ps.len(),
{
    if ps.len() == 0 {
        0
    } else if ps[0].spec_has_position() {
        let here = LatLon { lat: ps[0].latitude->0, lon: ps[0].longitude->0 };
        (match prev {
            Some(q) => spec_leg_mm(q.lat as int, q.lon as int, here.lat as int, here.lon as int),
            None => 0,
        }) + spec_total_from(ps.skip(1), Some(here))
    } else {
        spec_total_from(ps.skip(1), prev)
    }
}

/// Cumulative track length of the whole stream, in millimeters.
pub open spec fn spec_total_distance(ps: Seq<TelemetryPoint>) -> int {
    spec_total_from(ps, None)
}

/// The stored track length: the exact sum, saturated into a `u64`.
pub open spec fn spec_total_distance_clamped(ps: Seq<TelemetryPoint>) -> u64 {
    if spec_total_distance(ps) > u64::MAX {
        u64::MAX
    } else {
        spec_total_distance(ps) as u64
    }
}

/// Milliseconds between the first and the last sample.
pub open spec fn spec_duration_ms(ps: Seq<TelemetryPoint>) -> int {
    if ps.len() == 0 {
        0
    } else {
        ps.last().timestamp_ms - ps[0].timestamp_ms
    }
}

/// Whether stored statistics are the ones this stream derives.
pub open spec fn spec_stats_of(s: FlightStats, ps: Seq<TelemetryPoint>) -> bool {
    &&& s.duration_ms as int == spec_duration_ms(ps)
    &&& s.total_distance_mm == spec_total_distance_clamped(ps)
    &&& s.max_altitude_mm == spec_max_altitude(ps)
    &&& s.max_speed_mms == spec_max_speed(ps)
    &&& s.avg_speed_mms == spec_avg_speed(ps)
    &&& s.min_battery == spec_min_battery(ps)
    &&& s.home_location == spec_home(ps)
}

/// Legs add up: over three consecutive GPS fixes the track length is the
/// length of the first leg plus the length of the second.
pub proof fn lemma_total_distance_three_fixes(
    a: TelemetryPoint,
    b: TelemetryPoint,
    c: TelemetryPoint,
)
    requires
        a.spec_has_position(),
        b.spec_has_position(),
        c.spec_has_position(),
    ensures
        spec_total_distance(seq![a, b, c]) == spec_leg_mm(
            a.latitude->0 as int,
            a.longitude->0 as int,
            b.latitude->0 as int,
            b.longitude->0 as int,
        ) + spec_leg_mm(
            b.latitude->0 as int,
            b.longitude->0 as int,
            c.latitude->0 as int,
            c.longitude->0 as int,
        ),
{
    let s = seq![a, b, c];
    let pa = LatLon { lat: a.latitude->0, lon: a.longitude->0 };
    let pb = LatLon { lat: b.latitude->0, lon: b.longitude->0 };
    let pc = LatLon { lat: c.latitude->0, lon: c.longitude->0 };
    assert(s.skip(1) =~= seq![b, c]);
    assert(seq![b, c].skip(1) =~= seq![c]);
    assert(seq![c].skip(1) =~= Seq::<TelemetryPoint>::empty());
    assert(s[0] == a && seq![b, c][0] == b && seq![c][0] == c);
    assert(spec_total_from(seq![c], Some(pb)) == spec_leg_mm(
        pb.lat as int,
        pb.lon as int,
        pc.lat as int,
        pc.lon as int,
    ) + spec_total_from(Seq::<TelemetryPoint>::empty(), Some(pc)));
    assert(spec_total_from(seq![b, c], Some(pa)) == spec_leg_mm(
        pa.lat as int,
        pa.lon as int,
        pb.lat as int,
        pb.lon as int,
    ) + spec_total_from(seq![c], Some(pb)));
    assert(spec_total_from(s, None) == 0 + spec_total_from(seq![b, c], Some(pa)));
}

/// Compute the statistics of a decoded stream in one pass.
#[verifier::rlimit(100)]
pub fn compute_stats(points: &Vec<TelemetryPoint>) -> (s: FlightStats)
    requires
        crate::decoder::points_sorted(points@),
        forall|k: int| 0 <= k < points@.len() ==> (#[trigger] points@[k]).spec_wf(),
    ensures
        spec_stats_of(s, points@),
{
    let n = points.len();
    let mut max_alt: Option<i64> = None;
    let mut max_speed: Option<i64> = None;
    let mut min_battery: Option<i32> = None;
    let mut speed_sum: u128 = 0;
    let mut speed_count: usize = 0;
    let mut home: Option<LatLon> = None;
    let mut prev: Option<LatLon> = None;
    let mut total: u128 = 0;
    let mut i: usize = 0;
    proof {
        assert(points@.skip(0) =~= points@);
        assert(points@.take(0) =~= Seq::<TelemetryPoint>::empty());
    }
    while i < n
        invariant
            0 <= i <= n,
            n == points@.len(),
            forall|k: int| 0 <= k < n ==> (#[trigger] points@[k]).spec_wf(),
            max_alt == spec_max_altitude(points@.take(i as int)),
            max_speed == spec_max_speed(points@.take(i as int)),
            min_battery == spec_min_battery(points@.take(i as int)),
            speed_sum as int == spec_speed_sum(points@.take(i as int)),
            speed_count as nat == spec_speed_count(points@.take(i as int)),
            speed_count <= i,
            speed_sum as int <= speed_count as int * 0x7fffffff,
            spec_home(points@) == (match home {
                Some(h) => Some(h),
                None => spec_home(points@.skip(i as int)),
            }),
            spec_total_distance(points@) == total + spec_total_from(
                points@.skip(i as int),
                prev,
            ),
            total <= i as int * LEG_MAX_MM,
            match prev {
                Some(q) => -900000000 <= q.lat <= 900000000 && -1800000000 <= q.lon
                    <= 1800000000,
                None => true,
            },
        decreases n - i,
    {
        let p = points[i];
        let ghost pre = points@.take(i as int);
        let ghost rest = points@.skip(i as int);
        proof {
            assert(points@.take(i + 1).drop_last() =~= pre);
            assert(points@.take(i + 1).last() == points@[i as int]);
            assert(rest[0] == points@[i as int]);
            assert(rest.skip(1) =~= points@.skip(i + 1));
            assert(points@[i as int].spec_wf());
        }
        max_alt = match (max_alt, p.altitude) {
            (a, None) => a,
            (None, Some(x)) => Some(x),
            (Some(y), Some(x)) => if x > y {
                Some(x)
            } else {
                Some(y)
            },
        };
        max_speed = match (max_speed, p.speed) {
            (a, None) => a,
            (None, Some(x)) => Some(x),
            (Some(y), Some(x)) => if x > y {
                Some(x)
            } else {
                Some(y)
            },
        };
        min_battery = match (min_battery, p.battery_percent) {
            (a, None) => a,
            (None, Some(x)) => Some(x),
            (Some(y), Some(x)) => if x < y {
                Some(x)
            } else {
                Some(y)
            },
        };
        match p.speed {
            Some(v) => {
                speed_sum = speed_sum + (v as u128);
                speed_count = speed_count + 1;
            },
            None => {},
        }
        let has_position = match (p.latitude, p.longitude) {
            (Some(_), Some(_)) => true,
            _ => false,
        };
        if has_position {
            let lat = match p.latitude {
                Some(v) => v,
                None => 0,
            };
            let lon = match p.longitude {
                Some(v) => v,
                None => 0,
            };
            let here = LatLon { lat, lon };
            if home.is_none() {
                home = Some(here);
            }
            match prev {
                Some(q) => {
                    let leg = leg_distance_mm(q.lat, q.lon, here.lat, here.lon);
                    total = total + (leg as u128);
                },
                None => {},
            }
            prev = Some(here);
        }
        i = i + 1;
    }
    proof {
        assert(points@.take(n as int) =~= points@);
        assert(points@.skip(n as int) =~= Seq::<TelemetryPoint>::empty());
        assert(spec_total_from(points@.skip(n as int), prev) == 0);
        assert(spec_home(points@.skip(n as int)) is None);
    }
    // time bounds come straight from the sorted stream's ends
    let duration_ms: u64 = if n == 0 {
        0
    } else {
        let first = points[0].timestamp_ms;
        let last = points[n - 1].timestamp_ms;
        proof {
            assert(points@[0].timestamp_ms <= points@[n - 1].timestamp_ms);
            assert(points@.last() == points@[n - 1]);
        }
        last - first
    };
    // saturate the exact track length into the stored field
    let total_distance_mm: u64 = if total > 0xffffffffffffffff {
        u64::MAX
    } else {
        total as u64
    };
    // the mean speed of the samples that carry one
    let avg_speed_mms: Option<i64> = if speed_count > 0 {
        proof {
            assert(speed_sum as int / speed_count as int <= 0x7fffffff) by (nonlinear_arith)
                requires
                    speed_count > 0,
                    speed_sum as int <= speed_count as int * 0x7fffffff,
            ;
            assert(speed_sum as int / speed_count as int >= 0) by (nonlinear_arith)
                requires
                    speed_count > 0,
                    speed_sum >= 0,
            ;
        }
        Some((speed_sum / (speed_count as u128)) as i64)
    } else {
        None
    };
    proof {
        if spec_speed_count(points@) > 0 {
            assert(spec_speed_sum(points@) <= spec_speed_count(points@) * 0x7fffffff);
        }
    }
    FlightStats {
        duration_ms,
        total_distance_mm,
        max_altitude_mm: max_alt,
        max_speed_mms: max_speed,
        avg_speed_mms,
        min_battery,
        home_location: home,
    }
}

} // verus!
