//! Track length between GPS fixes, in fixed-point integer arithmetic.
//!
//! A leg between two fixes is measured with an equirectangular approximation
//! of the great circle on a spherical earth: the north-south and east-west
//! arc components are scaled to millimeters (one 1e-7 degree unit of arc is
//! 11.1195 mm), the east-west component is foreshortened by the cosine of the
//! mean latitude (a clamped second-order series, in 1e-4 steps), and the leg
//! is the Euclidean norm of the two, rounded down. Longitude differences wrap
//! around the antimeridian.

use vstd::prelude::*;

verus! {

/// Largest latitude magnitude, in 1e-7 degrees.
pub const LAT_LIMIT: i64 = 900000000;

/// Largest longitude magnitude, in 1e-7 degrees.
pub const LON_LIMIT: i64 = 1800000000;

/// No leg between valid fixes is longer than this many millimeters.
pub const LEG_MAX_MM: u64 = 30000000000;

/// The magnitude of the difference of two values.
pub open spec fn spec_abs_diff(a: int, b: int) -> int {
    if a >= b {
        a - b
    } else {
        b - a
    }
}

/// Longitude differences measure the short way around the antimeridian.
pub open spec fn spec_wrap_dlon(d: int) -> int {
    if d > 1800000000 {
        3600000000 - d
    } else {
        d
    }
}

/// Cosine of a latitude given in 1e-7 degrees, in 1e-4 steps: a clamped
/// second-order series in the latitude's radian measure.
pub open spec fn spec_cos_e4(lat_abs_e7: int) -> int {
    let rad9 = lat_abs_e7 * 17453293 / 10000000;
    let t = rad9 * rad9 / 200000000000000;
    if t >= 10000 {
        0
    } else {
        10000 - t
    }
}

/// North-south arc in millimeters for a latitude difference in 1e-7 degrees.
pub open spec fn spec_ns_mm(dlat: int) -> int {
    dlat * 111195 / 10000
}

/// East-west arc in millimeters for a wrapped longitude difference, at the
/// given cosine of mean latitude.
pub open spec fn spec_ew_mm(dlon: int, cos_e4: int) -> int {
    dlon * 111195 * cos_e4 / 100000000
}

/// The squared leg length in square millimeters.
pub open spec fn spec_leg_sumsq(lat1: int, lon1: int, lat2: int, lon2: int) -> int {
    let dlat = spec_abs_diff(lat1, lat2);
    let dlon = spec_wrap_dlon(spec_abs_diff(lon1, lon2));
    let latm = spec_abs_diff(lat1 + lat2, 0) / 2;
    let ns = spec_ns_mm(dlat);
    let ew = spec_ew_mm(dlon, spec_cos_e4(latm));
    ns * ns + ew * ew
}

/// The non-negative integer square root.
pub open spec fn spec_isqrt(n: int) -> int {
    choose|r: int| 0 <= r && #[trigger] (r * r) <= n < (r + 1) * (r + 1)
}

/// The leg length in millimeters between two fixes.
pub open spec fn spec_leg_mm(lat1: int, lon1: int, lat2: int, lon2: int) -> int {
    spec_isqrt(spec_leg_sumsq(lat1, lon1, lat2, lon2))
}

/// Every non-negative integer has an integer square root, and `spec_isqrt`
/// denotes it.
pub proof fn lemma_isqrt_exists(n: int)
    requires
        n >= 0,
    ensures
        0 <= spec_isqrt(n),
        spec_isqrt(n) * spec_isqrt(n) <= n,
        n < (spec_isqrt(n) + 1) * (spec_isqrt(n) + 1),
    decreases n,
{
    if n == 0 {
        assert(0 * 0 <= 0 < (0 + 1) * (0 + 1));
        assert(exists|r: int| 0 <= r && #[trigger] (r * r) <= n < (r + 1) * (r + 1));
    } else {
        lemma_isqrt_exists(n - 1);
        let r0 = spec_isqrt(n - 1);
        if (r0 + 1) * (r0 + 1) <= n {
            let r = r0 + 1;
            assert(n < (r + 1) * (r + 1)) by (nonlinear_arith)
                requires
                    (r0 + 1) * (r0 + 1) > n - 1,
                    r == r0 + 1,
                    r0 >= 0,
            ;
            assert(0 <= r && r * r <= n < (r + 1) * (r + 1));
            assert(exists|q: int| 0 <= q && #[trigger] (q * q) <= n < (q + 1) * (q + 1));
        } else {
            assert(0 <= r0 && r0 * r0 <= n < (r0 + 1) * (r0 + 1));
            assert(exists|q: int| 0 <= q && #[trigger] (q * q) <= n < (q + 1) * (q + 1));
        }
    }
}

/// The pair of bounding inequalities pins the square root down.
pub proof fn lemma_isqrt_unique(n: int, r: int)
    requires
        0 <= r,
        r * r <= n,
        n < (r + 1) * (r + 1),
    ensures
        r == spec_isqrt(n),
{
    lemma_isqrt_exists(n);
    let q = spec_isqrt(n);
    if r < q {
        assert((r + 1) * (r + 1) <= q * q) by (nonlinear_arith)
            requires
                0 <= r,
                r < q,
        ;
    }
    if q < r {
        assert((q + 1) * (q + 1) <= r * r) by (nonlinear_arith)
            requires
                0 <= q,
                q < r,
        ;
    }
}

/// Integer square root by bisection.
pub fn isqrt_u128(n: u128) -> (r: u64)
    ensures
        r as int == spec_isqrt(n as int),
        (r as int) * (r as int) <= n as int,
        (n as int) < ((r as int) + 1) * ((r as int) + 1),
{
    let mut lo: u128 = 0;
    let mut hi: u128 = 0x10000000000000000;
    proof {
        assert((hi as int) * (hi as int) > u128::MAX as int);
    }
    while hi - lo > 1
        invariant
            lo < hi <= 0x10000000000000000,
            (lo as int) * (lo as int) <= n as int,
            (hi as int) * (hi as int) > n as int,
        decreases hi - lo,
    {
        let mid: u128 = lo + (hi - lo) / 2;
        proof {
            assert((mid as int) * (mid as int) <= 0xffffffffffffffff * 0xffffffffffffffff)
                by (nonlinear_arith)
                requires
                    0 <= mid as int <= 0xffffffffffffffff,
            ;
        }
        if mid * mid <= n {
            lo = mid;
        } else {
            hi = mid;
        }
    }
    proof {
        lemma_isqrt_unique(n as int, lo as int);
    }
    lo as u64
}

/// The magnitude of the difference of two bounded coordinates.
fn abs_diff_i64(a: i64, b: i64) -> (d: u64)
    requires
        -2000000000 <= a <= 2000000000,
        -2000000000 <= b <= 2000000000,
    ensures
        d as int == spec_abs_diff(a as int, b as int),
{
    if a >= b {
        (a - b) as u64
    } else {
        (b - a) as u64
    }
}

/// The leg length in millimeters between two GPS fixes given in 1e-7 degrees.
pub fn leg_distance_mm(lat1: i64, lon1: i64, lat2: i64, lon2: i64) -> (d: u64)
    requires
        -LAT_LIMIT <= lat1 <= LAT_LIMIT,
        -LAT_LIMIT <= lat2 <= LAT_LIMIT,
        -LON_LIMIT <= lon1 <= LON_LIMIT,
        -LON_LIMIT <= lon2 <= LON_LIMIT,
    ensures
        d as int == spec_leg_mm(lat1 as int, lon1 as int, lat2 as int, lon2 as int),
        d <= LEG_MAX_MM,
{
    let dlat: u64 = abs_diff_i64(lat1, lat2);
    let dlon_raw: u64 = abs_diff_i64(lon1, lon2);
    let dlon: u64 = if dlon_raw > 1800000000 {
        3600000000 - dlon_raw
    } else {
        dlon_raw
    };
    let latm: u64 = abs_diff_i64(lat1 + lat2, 0) / 2;
    proof {
        assert(dlat <= 1800000000);
        assert(dlon <= 1800000000);
        assert(latm <= 900000000);
        assert(dlat * 111195 <= 1800000000 * 111195) by (nonlinear_arith)
            requires
                dlat <= 1800000000,
        ;
    }
    let ns: u64 = dlat * 111195 / 10000;
    proof {
        assert(ns <= 1800000000 * 111195 / 10000) by (nonlinear_arith)
            requires
                ns == dlat * 111195 / 10000,
                dlat * 111195 <= 1800000000 * 111195,
        ;
        assert(latm * 17453293 <= 900000000 * 17453293) by (nonlinear_arith)
            requires
                latm <= 900000000,
        ;
    }
    let rad9: u64 = latm * 17453293 / 10000000;
    proof {
        assert(rad9 <= 900000000 * 17453293 / 10000000) by (nonlinear_arith)
            requires
                rad9 == latm * 17453293 / 10000000,
                latm * 17453293 <= 900000000 * 17453293,
        ;
        assert(rad9 * rad9 <= 1570796370 * 1570796370) by (nonlinear_arith)
            requires
                rad9 <= 1570796370,
        ;
    }
    let t: u64 = rad9 * rad9 / 200000000000000;
    let cos_e4: u64 = if t >= 10000 {
        0
    } else {
        10000 - t
    };
    proof {
        assert(dlon * 111195 <= 1800000000 * 111195) by (nonlinear_arith)
            requires
                dlon <= 1800000000,
        ;
        assert(dlon * 111195 * cos_e4 <= 1800000000 * 111195 * 10000) by (nonlinear_arith)
            requires
                dlon * 111195 <= 1800000000 * 111195,
                cos_e4 <= 10000,
        ;
    }
    let ew: u64 = dlon * 111195 * cos_e4 / 100000000;
    proof {
        assert(ew <= 1800000000 * 111195 * 10000 / 100000000) by (nonlinear_arith)
            requires
                ew == dlon * 111195 * cos_e4 / 100000000,
                dlon * 111195 * cos_e4 <= 1800000000 * 111195 * 10000,
        ;
        assert((ns as int) * (ns as int) + (ew as int) * (ew as int) <= 20015100000 * 20015100000
            * 2) by (nonlinear_arith)
            requires
                ns <= 20015100000,
                ew <= 20015100000,
        ;
    }
    let sumsq: u128 = (ns as u128) * (ns as u128) + (ew as u128) * (ew as u128);
    let d = isqrt_u128(sumsq);
    proof {
        assert(sumsq as int == spec_leg_sumsq(lat1 as int, lon1 as int, lat2 as int, lon2 as int));
        assert(d as int <= 29000000000) by (nonlinear_arith)
            requires
                (d as int) * (d as int) <= sumsq as int,
                sumsq as int <= 20015100000 * 20015100000 * 2,
                0 <= d as int,
        ;
    }
    d
}

} // verus!
