//! The log decoder: raw container bytes to flight identity and an ordered
//! telemetry sample stream.
//!
//! A log is a fixed header followed by a payload. The header carries a magic
//! mark, the container version, a drone model code and the serial number.
//! Containers from version `ENCRYPTED_MIN_VERSION` on carry the payload
//! encrypted with vendor key material; the decrypted payload starts with its
//! own magic mark, which is how a wrong or stale credential shows up.
//!
//! The payload is a stream of tagged, length-prefixed records. Each record
//! updates a rolling current sample; a sampling-boundary record flushes that
//! sample. Unknown or malformed records are skipped over by their declared
//! length and counted as warnings — a corrupt tail never discards a valid
//! head.

use vstd::prelude::*;
use vstd::bytes::spec_u16_from_le_bytes;
use vstd::bytes::spec_u32_from_le_bytes;
use vstd::bytes::spec_u64_from_le_bytes;
use vstd::bytes::u16_from_le_bytes;
use vstd::bytes::u32_from_le_bytes;
use vstd::bytes::u64_from_le_bytes;
use vstd::slice::slice_subrange;
use crate::telemetry::TelemetryPoint;

verus! {

/// Bytes of the fixed container header: magic, version, model code, serial.
pub const HEADER_LEN: usize = 16;

/// Oldest container version this decoder understands.
pub const MIN_VERSION: u8 = 1;

/// Newest container version this decoder understands.
pub const MAX_VERSION: u8 = 15;

/// First container version whose payload is encrypted.
pub const ENCRYPTED_MIN_VERSION: u8 = 13;

/// Fatal decoding failures; nothing of the flight is produced.
#[derive(Debug)]
pub enum DecodeError {
    /// The container magic or version is not one this decoder understands.
    UnsupportedFormat,
    /// The payload is encrypted and no credential was available.
    CredentialMissing,
    /// The payload did not decrypt to a well-formed stream: wrong or expired
    /// credential, or corrupted ciphertext.
    DecryptionFailed,
}

/// A decoded flight: header identity plus the ordered sample stream.
pub struct DecodedLog {
    /// Container version from the header.
    pub version: u8,
    /// Model code, when the header carries one; see
    /// [`crate::telemetry::model_name`].
    pub drone_model: Option<u8>,
    /// Serial number, when the header carries one.
    pub drone_serial: Option<u64>,
    /// The samples, in non-decreasing timestamp order.
    pub points: Vec<TelemetryPoint>,
    /// Record-level problems skipped during decoding.
    pub warnings: u64,
}

/// The rolling decoding state: the current sparse sample, the flushed
/// samples, and the warning count.
pub struct DecodeState {
    pub cur: TelemetryPoint,
    pub points: Seq<TelemetryPoint>,
    pub warnings: nat,
}

impl DecodeState {
    /// Decoding starts with an all-unknown sample and nothing flushed.
    pub open spec fn init() -> DecodeState {
        DecodeState { cur: TelemetryPoint::spec_empty(), points: Seq::empty(), warnings: 0 }
    }

    /// One more record-level problem.
    pub open spec fn warn(self) -> DecodeState {
        DecodeState { warnings: self.warnings + 1, ..self }
    }
}

/// Whether the samples are in non-decreasing timestamp order.
pub open spec fn points_sorted(ps: Seq<TelemetryPoint>) -> bool {
    forall|i: int, j: int| 0 <= i <= j < ps.len() ==> ps[i].timestamp_ms <= ps[j].timestamp_ms
}

/// The sampling-boundary tag: flushes the current sample.
pub const TAG_BOUNDARY: u8 = 1;

/// Position record: latitude, longitude, relative and absolute altitude.
pub const TAG_POSITION: u8 = 2;

/// Velocity record: ground speed and velocity components.
pub const TAG_VELOCITY: u8 = 3;

/// Attitude record: pitch, roll, yaw.
pub const TAG_ATTITUDE: u8 = 4;

/// Gimbal attitude record.
pub const TAG_GIMBAL: u8 = 5;

/// Battery record: percent, voltage, current, temperature.
pub const TAG_BATTERY: u8 = 6;

/// Status record: flight mode, GPS signal, satellites, RC signal.
pub const TAG_STATUS: u8 = 7;

/// The tags this decoder understands.
pub open spec fn known_tag(tag: u8) -> bool {
    1 <= tag <= 7
}

/// The body length each known tag declares.
pub open spec fn expected_len(tag: u8) -> int {
    if tag == 1 {
        8
    } else if tag == 2 {
        16
    } else if tag == 3 {
        16
    } else if tag == 4 {
        6
    } else if tag == 5 {
        6
    } else if tag == 6 {
        7
    } else {
        4
    }
}

/// A little-endian `u32` body field read as a signed value.
pub open spec fn spec_i32_at(body: Seq<u8>, off: int) -> int {
    let x = spec_u32_from_le_bytes(body.subrange(off, off + 4));
    if x >= 0x80000000 {
        x - 0x100000000
    } else {
        x as int
    }
}

/// A little-endian `u16` body field read as a signed value.
pub open spec fn spec_i16_at(body: Seq<u8>, off: int) -> int {
    let x = spec_u16_from_le_bytes(body.subrange(off, off + 2));
    if x >= 0x8000 {
        x - 0x10000
    } else {
        x as int
    }
}

/// How one record changes the decoding state. Unknown tags, bodies of the
/// wrong declared length, and field values outside their domain are each one
/// warning and change nothing else; a boundary record flushes the current
/// sample unless it would break timestamp order.
pub open spec fn spec_step(st: DecodeState, tag: u8, body: Seq<u8>) -> DecodeState {
    if !known_tag(tag) || body.len() != expected_len(tag) {
        st.warn()
    } else if tag == 1 {
        let ts = spec_u64_from_le_bytes(body);
        if st.points.len() > 0 && ts < st.points.last().timestamp_ms {
            st.warn()
        } else {
            DecodeState {
                points: st.points.push(TelemetryPoint { timestamp_ms: ts, ..st.cur }),
                ..st
            }
        }
    } else if tag == 2 {
        let lat = spec_i32_at(body, 0);
        let lon = spec_i32_at(body, 4);
        if lat < -900000000 || lat > 900000000 || lon < -1800000000 || lon > 1800000000 {
            st.warn()
        } else {
            DecodeState {
                cur: TelemetryPoint {
                    latitude: Some(lat as i64),
                    longitude: Some(lon as i64),
                    altitude: Some(spec_i32_at(body, 8) as i64),
                    altitude_abs: Some(spec_i32_at(body, 12) as i64),
                    ..st.cur
                },
                ..st
            }
        }
    } else if tag == 3 {
        let speed = spec_i32_at(body, 0);
        if speed < 0 {
            st.warn()
        } else {
            DecodeState {
                cur: TelemetryPoint {
                    speed: Some(speed as i64),
                    velocity_x: Some(spec_i32_at(body, 4) as i64),
                    velocity_y: Some(spec_i32_at(body, 8) as i64),
                    velocity_z: Some(spec_i32_at(body, 12) as i64),
                    ..st.cur
                },
                ..st
            }
        }
    } else if tag == 4 {
        DecodeState {
            cur: TelemetryPoint {
                pitch: Some(spec_i16_at(body, 0) as i64),
                roll: Some(spec_i16_at(body, 2) as i64),
                yaw: Some(spec_i16_at(body, 4) as i64),
                ..st.cur
            },
            ..st
        }
    } else if tag == 5 {
        DecodeState {
            cur: TelemetryPoint {
                gimbal_pitch: Some(spec_i16_at(body, 0) as i64),
                gimbal_roll: Some(spec_i16_at(body, 2) as i64),
                gimbal_yaw: Some(spec_i16_at(body, 4) as i64),
                ..st.cur
            },
            ..st
        }
    } else if tag == 6 {
        let percent = body[0];
        if percent > 100 {
            st.warn()
        } else {
            DecodeState {
                cur: TelemetryPoint {
                    battery_percent: Some(percent as i32),
                    battery_voltage: Some(spec_u16_from_le_bytes(body.subrange(1, 3)) as i64),
                    battery_current: Some(spec_i16_at(body, 3) as i64),
                    battery_temp: Some(spec_i16_at(body, 5) as i64),
                    ..st.cur
                },
                ..st
            }
        }
    } else {
        let mode = body[0];
        if mode > 7 {
            st.warn()
        } else {
            DecodeState {
                cur: TelemetryPoint {
                    flight_mode: Some(mode),
                    gps_signal: Some(body[1] as i32),
                    satellites: Some(body[2] as i32),
                    rc_signal: Some(body[3] as i32),
                    ..st.cur
                },
                ..st
            }
        }
    }
}

/// Decoding a record stream: consume `tag, len, body` triples; a dangling tag
/// or a body running past the end is one final warning and ends decoding.
pub open spec fn spec_records(bytes: Seq<u8>, st: DecodeState) -> DecodeState
    decreases bytes.len(),
{
    if bytes.len() == 0 {
        st
    } else if bytes.len() == 1 {
        st.warn()
    } else {
        let tag = bytes[0];
        let l = bytes[1] as int;
        if 2 + l > bytes.len() {
            st.warn()
        } else {
            spec_records(bytes.skip(2 + l), spec_step(st, tag, bytes.subrange(2, 2 + l)))
        }
    }
}

/// One record step keeps the flushed samples a sorted extension of what was
/// there, and adds at most one warning.
pub proof fn lemma_step_props(st: DecodeState, tag: u8, body: Seq<u8>)
    ensures
        spec_step(st, tag, body).points.len() >= st.points.len(),
        forall|k: int|
            0 <= k < st.points.len() ==> spec_step(st, tag, body).points[k] == st.points[k],
        st.warnings <= spec_step(st, tag, body).warnings <= st.warnings + 1,
        points_sorted(st.points) ==> points_sorted(spec_step(st, tag, body).points),
        spec_step(st, tag, body).points.len() <= st.points.len() + 1,
        st.cur.spec_wf() ==> spec_step(st, tag, body).cur.spec_wf(),
        st.cur.spec_wf() && (forall|k: int|
            0 <= k < st.points.len() ==> (#[trigger] st.points[k]).spec_wf()) ==> forall|k: int|
            0 <= k < spec_step(st, tag, body).points.len() ==> (#[trigger] spec_step(
                st,
                tag,
                body,
            ).points[k]).spec_wf(),
{
    let r = spec_step(st, tag, body);
    if r.points.len() > st.points.len() {
        assert(r.points == st.points.push(r.points.last()));
        if points_sorted(st.points) {
            assert forall|i: int, j: int|
                0 <= i <= j < r.points.len() implies r.points[i].timestamp_ms
                <= r.points[j].timestamp_ms by {
                if j < st.points.len() {
                } else if i < st.points.len() {
                    assert(st.points.last().timestamp_ms <= r.points[j].timestamp_ms);
                }
            }
        }
    }
}

/// Decoding only extends the flushed samples, keeps them sorted, and adds no
/// more warnings than there are bytes left.
pub proof fn lemma_records_props(bytes: Seq<u8>, st: DecodeState)
    ensures
        spec_records(bytes, st).points.len() >= st.points.len(),
        forall|k: int|
            0 <= k < st.points.len() ==> spec_records(bytes, st).points[k] == st.points[k],
        st.warnings <= spec_records(bytes, st).warnings <= st.warnings + bytes.len(),
        points_sorted(st.points) ==> points_sorted(spec_records(bytes, st).points),
        st.cur.spec_wf() && (forall|k: int|
            0 <= k < st.points.len() ==> (#[trigger] st.points[k]).spec_wf()) ==> forall|k: int|
            0 <= k < spec_records(bytes, st).points.len() ==> (#[trigger] spec_records(
                bytes,
                st,
            ).points[k]).spec_wf(),
    decreases bytes.len(),
{
    if bytes.len() == 0 {
    } else if bytes.len() == 1 {
    } else {
        let tag = bytes[0];
        let l = bytes[1] as int;
        if 2 + l > bytes.len() {
        } else {
            lemma_step_props(st, tag, bytes.subrange(2, 2 + l));
            lemma_records_props(bytes.skip(2 + l), spec_step(st, tag, bytes.subrange(2, 2 + l)));
        }
    }
}

/// A well-formed record stream: a sequence of complete `tag, len, body`
/// triples with nothing dangling.
pub open spec fn wf_records(bytes: Seq<u8>) -> bool
    decreases bytes.len(),
{
    if bytes.len() == 0 {
        true
    } else if bytes.len() == 1 {
        false
    } else {
        let l = bytes[1] as int;
        &&& 2 + l <= bytes.len()
        &&& wf_records(bytes.skip(2 + l))
    }
}

/// Decoding distributes over concatenation at a record boundary.
pub proof fn lemma_records_concat(b1: Seq<u8>, b2: Seq<u8>, st: DecodeState)
    requires
        wf_records(b1),
    ensures
        spec_records(b1 + b2, st) == spec_records(b2, spec_records(b1, st)),
    decreases b1.len(),
{
    if b1.len() == 0 {
        assert(b1 + b2 =~= b2);
    } else {
        let l = b1[1] as int;
        let cat = b1 + b2;
        assert(cat[0] == b1[0]);
        assert(cat[1] == b1[1]);
        assert(cat.subrange(2, 2 + l) =~= b1.subrange(2, 2 + l));
        assert(cat.skip(2 + l) =~= b1.skip(2 + l) + b2);
        lemma_records_concat(b1.skip(2 + l), b2, spec_step(st, b1[0], b1.subrange(2, 2 + l)));
    }
}

/// A warning already counted rides along: decoding from a state with one
/// more warning flushes the same samples and keeps the extra warning.
pub proof fn lemma_records_warn_shift(bytes: Seq<u8>, st: DecodeState)
    ensures
        spec_records(bytes, st.warn()).points == spec_records(bytes, st).points,
        spec_records(bytes, st.warn()).cur == spec_records(bytes, st).cur,
        spec_records(bytes, st.warn()).warnings == spec_records(bytes, st).warnings + 1,
    decreases bytes.len(),
{
    if bytes.len() <= 1 {
    } else {
        let l = bytes[1] as int;
        if 2 + l > bytes.len() {
        } else {
            let tag = bytes[0];
            let body = bytes.subrange(2, 2 + l);
            assert(spec_step(st.warn(), tag, body) == spec_step(st, tag, body).warn());
            lemma_records_warn_shift(bytes.skip(2 + l), spec_step(st, tag, body));
        }
    }
}

/// Robustness of decoding: one unrecognized record interleaved among
/// well-formed records is skipped by its declared length — the decoded
/// samples are exactly those of the stream without it, with exactly one
/// more warning. A corrupt record never discards the valid records around
/// it.
pub proof fn lemma_unknown_record_skipped(
    b1: Seq<u8>,
    tag: u8,
    body: Seq<u8>,
    b2: Seq<u8>,
    st: DecodeState,
)
    requires
        wf_records(b1),
        !known_tag(tag),
        body.len() <= 255,
    ensures
        ({
            let bad = seq![tag, body.len() as u8] + body;
            &&& spec_records(b1 + bad + b2, st).points == spec_records(b1 + b2, st).points
            &&& spec_records(b1 + bad + b2, st).warnings == spec_records(b1 + b2, st).warnings
                + 1
        }),
{
    let bad = seq![tag, body.len() as u8] + body;
    assert(b1 + bad + b2 =~= b1 + (bad + b2));
    lemma_records_concat(b1, bad + b2, st);
    lemma_records_concat(b1, b2, st);
    let mid = spec_records(b1, st);
    let rest = bad + b2;
    assert(rest[0] == tag);
    assert(rest[1] == body.len() as u8);
    assert(rest[1] as int == body.len());
    assert(rest.len() == 2 + body.len() + b2.len());
    assert(rest.subrange(2, 2 + body.len() as int) =~= body);
    assert(rest.skip(2 + body.len() as int) =~= b2);
    assert(spec_step(mid, tag, body) == mid.warn());
    assert(spec_records(rest, mid) == spec_records(b2, mid.warn()));
    lemma_records_warn_shift(b2, mid);
}

/// XOR keystream over the key material, cycled; an empty key leaves the
/// bytes as they are.
pub open spec fn spec_decrypt(cipher: Seq<u8>, key: Seq<u8>) -> Seq<u8> {
    if key.len() == 0 {
        cipher
    } else {
        Seq::new(cipher.len(), |i: int| cipher[i] ^ key[i % key.len() as int])
    }
}

/// Whether a plaintext payload carries the payload magic `TREC`.
pub open spec fn spec_payload_ok(p: Seq<u8>) -> bool {
    &&& p.len() >= 4
    &&& p[0] == 84
    &&& p[1] == 82
    &&& p[2] == 69
    &&& p[3] == 67
}

/// Whether the container header is one this decoder understands: the `DJIL`
/// magic and a supported version.
pub open spec fn spec_header_ok(bytes: Seq<u8>) -> bool {
    &&& bytes.len() >= HEADER_LEN
    &&& bytes[0] == 68
    &&& bytes[1] == 74
    &&& bytes[2] == 73
    &&& bytes[3] == 76
    &&& MIN_VERSION <= bytes[4] <= MAX_VERSION
}

/// The container version of a well-formed header.
pub open spec fn spec_version(bytes: Seq<u8>) -> u8 {
    bytes[4]
}

/// The model code of a well-formed header; zero means unknown.
pub open spec fn spec_model(bytes: Seq<u8>) -> Option<u8> {
    if bytes[5] == 0 {
        None
    } else {
        Some(bytes[5])
    }
}

/// The serial number of a well-formed header; zero means unknown.
pub open spec fn spec_serial(bytes: Seq<u8>) -> Option<u64> {
    let s = spec_u64_from_le_bytes(bytes.subrange(6, 14));
    if s == 0 {
        None
    } else {
        Some(s)
    }
}

/// The record bytes a well-formed container decodes, given the optional key
/// material: the payload as it stands for plaintext versions, the decrypted
/// payload behind its magic for encrypted ones. `None` when decryption is
/// impossible or fails.
pub open spec fn spec_record_bytes(bytes: Seq<u8>, key: Option<Seq<u8>>) -> Option<Seq<u8>> {
    if spec_version(bytes) < ENCRYPTED_MIN_VERSION {
        Some(bytes.skip(HEADER_LEN as int))
    } else {
        match key {
            None => None,
            Some(k) => {
                let plain = spec_decrypt(bytes.skip(HEADER_LEN as int), k);
                if spec_payload_ok(plain) {
                    Some(plain.skip(4))
                } else {
                    None
                }
            },
        }
    }
}

/// Read a `u64` little-endian field.
fn read_u64_le(body: &[u8], off: usize) -> (v: u64)
    requires
        off + 8 <= body@.len(),
    ensures
        v == spec_u64_from_le_bytes(body@.subrange(off as int, off + 8)),
{
    let n = body.len();
    u64_from_le_bytes(slice_subrange(body, off, off + 8))
}

/// Read a signed 32-bit little-endian field, widened.
fn read_i32_le(body: &[u8], off: usize) -> (v: i64)
    requires
        off + 4 <= body@.len(),
    ensures
        v as int == spec_i32_at(body@, off as int),
        -0x80000000 <= (v as int) < 0x80000000,
{
    let n = body.len();
    let x = u32_from_le_bytes(slice_subrange(body, off, off + 4));
    if x >= 0x80000000 {
        (x as i64) - 0x100000000
    } else {
        x as i64
    }
}

/// Read a signed 16-bit little-endian field, widened.
fn read_i16_le(body: &[u8], off: usize) -> (v: i64)
    requires
        off + 2 <= body@.len(),
    ensures
        v as int == spec_i16_at(body@, off as int),
{
    let n = body.len();
    let x = u16_from_le_bytes(slice_subrange(body, off, off + 2));
    if x >= 0x8000 {
        (x as i64) - 0x10000
    } else {
        x as i64
    }
}

/// Read an unsigned 16-bit little-endian field, widened.
fn read_u16_le(body: &[u8], off: usize) -> (v: i64)
    requires
        off + 2 <= body@.len(),
    ensures
        v as int == spec_u16_from_le_bytes(body@.subrange(off as int, off + 2)),
{
    let n = body.len();
    let x = u16_from_le_bytes(slice_subrange(body, off, off + 2));
    x as i64
}

/// Decode one record stream into flushed samples and a warning count.
#[verifier::rlimit(100)]
pub fn decode_records(input: &[u8]) -> (r: (Vec<TelemetryPoint>, u64))
    ensures
        r.0@ == spec_records(input@, DecodeState::init()).points,
        r.1 as nat == spec_records(input@, DecodeState::init()).warnings,
        points_sorted(r.0@),
        forall|k: int| 0 <= k < r.0@.len() ==> (#[trigger] r.0@[k]).spec_wf(),
{
    let n = input.len();
    let mut i: usize = 0;
    let mut cur: TelemetryPoint = TelemetryPoint::empty();
    let mut points: Vec<TelemetryPoint> = Vec::new();
    let mut warnings: u64 = 0;
    proof {
        assert(input@.skip(0) =~= input@);
        lemma_records_props(input@, DecodeState::init());
    }
    loop
        invariant
            0 <= i <= n,
            n == input@.len(),
            warnings <= i,
            spec_records(input@, DecodeState::init()) == spec_records(
                input@.skip(i as int),
                DecodeState { cur: cur, points: points@, warnings: warnings as nat },
            ),
        decreases n - i,
    {
        let ghost st = DecodeState { cur: cur, points: points@, warnings: warnings as nat };
        let ghost rest = input@.skip(i as int);
        if i >= n {
            proof {
                assert(rest.len() == 0);
                assert(spec_records(rest, st) == st);
                lemma_records_props(input@, DecodeState::init());
            }
            return (points, warnings);
        }
        if i + 1 >= n {
            // dangling tag byte
            proof {
                assert(rest.len() == 1);
                assert(spec_records(rest, st) == st.warn());
                lemma_records_props(input@, DecodeState::init());
            }
            warnings = warnings + 1;
            return (points, warnings);
        }
        let tag = input[i];
        let l = input[i + 1] as usize;
        proof {
            assert(rest[0] == input@[i as int]);
            assert(rest[1] == input@[i + 1]);
        }
        if l > n - (i + 2) {
            // record body runs past the end of the stream
            proof {
                assert(2 + l > rest.len());
                assert(spec_records(rest, st) == st.warn());
                lemma_records_props(input@, DecodeState::init());
            }
            warnings = warnings + 1;
            return (points, warnings);
        }
        let body = slice_subrange(input, i + 2, i + 2 + l);
        proof {
            assert(body@ =~= rest.subrange(2, 2 + l));
            assert(rest.skip(2 + l) =~= input@.skip(i + 2 + l));
            assert(spec_records(rest, st) == spec_records(
                rest.skip(2 + l),
                spec_step(st, tag, body@),
            ));
            lemma_step_props(st, tag, body@);
        }
        let ghost stepped = spec_step(st, tag, body@);
        // apply the record to the rolling state
        if tag == TAG_BOUNDARY && l == 8 {
            let ts = read_u64_le(body, 0);
            proof {
                assert(body@.subrange(0, 8) =~= body@);
            }
            let out_of_order = points.len() > 0 && ts < points[points.len() - 1].timestamp_ms;
            if out_of_order {
                proof {
                    assert(points@.last() == points@[points@.len() - 1]);
                    assert(stepped == st.warn());
                }
                warnings = warnings + 1;
            } else {
                let mut p = cur;
                p.timestamp_ms = ts;
                proof {
                    if points@.len() > 0 {
                        assert(points@.last() == points@[points@.len() - 1]);
                    }
                    assert(stepped.points == st.points.push(p));
                }
                points.push(p);
            }
        } else if tag == TAG_POSITION && l == 16 {
            let lat = read_i32_le(body, 0);
            let lon = read_i32_le(body, 4);
            if lat < -900000000 || lat > 900000000 || lon < -1800000000 || lon > 1800000000 {
                warnings = warnings + 1;
            } else {
                cur.latitude = Some(lat);
                cur.longitude = Some(lon);
                cur.altitude = Some(read_i32_le(body, 8));
                cur.altitude_abs = Some(read_i32_le(body, 12));
            }
        } else if tag == TAG_VELOCITY && l == 16 {
            let speed = read_i32_le(body, 0);
            if speed < 0 {
                warnings = warnings + 1;
            } else {
                cur.speed = Some(speed);
                cur.velocity_x = Some(read_i32_le(body, 4));
                cur.velocity_y = Some(read_i32_le(body, 8));
                cur.velocity_z = Some(read_i32_le(body, 12));
            }
        } else if tag == TAG_ATTITUDE && l == 6 {
            cur.pitch = Some(read_i16_le(body, 0));
            cur.roll = Some(read_i16_le(body, 2));
            cur.yaw = Some(read_i16_le(body, 4));
        } else if tag == TAG_GIMBAL && l == 6 {
            cur.gimbal_pitch = Some(read_i16_le(body, 0));
            cur.gimbal_roll = Some(read_i16_le(body, 2));
            cur.gimbal_yaw = Some(read_i16_le(body, 4));
        } else if tag == TAG_BATTERY && l == 7 {
            let percent = body[0];
            if percent > 100 {
                warnings = warnings + 1;
            } else {
                cur.battery_percent = Some(percent as i32);
                cur.battery_voltage = Some(read_u16_le(body, 1));
                cur.battery_current = Some(read_i16_le(body, 3));
                cur.battery_temp = Some(read_i16_le(body, 5));
            }
        } else if tag == TAG_STATUS && l == 4 {
            let mode = body[0];
            if mode > 7 {
                warnings = warnings + 1;
            } else {
                cur.flight_mode = Some(mode);
                cur.gps_signal = Some(body[1] as i32);
                cur.satellites = Some(body[2] as i32);
                cur.rc_signal = Some(body[3] as i32);
            }
        } else {
            // unknown tag or wrong declared length: skip it by its length
            warnings = warnings + 1;
        }
        proof {
            assert(DecodeState { cur: cur, points: points@, warnings: warnings as nat }
                == stepped);
        }
        i = i + 2 + l;
    }
}

/// Undo the XOR keystream; with an empty key the bytes pass unchanged.
pub fn decrypt_payload(cipher: &[u8], key: &[u8]) -> (plain: Vec<u8>)
    ensures
        plain@ == spec_decrypt(cipher@, key@),
{
    let n = cipher.len();
    let mut plain: Vec<u8> = Vec::new();
    if key.len() == 0 {
        let mut i: usize = 0;
        while i < n
            invariant
                0 <= i <= n,
                n == cipher@.len(),
                plain@ =~= cipher@.subrange(0, i as int),
            decreases n - i,
        {
            plain.push(cipher[i]);
            i = i + 1;
        }
        proof {
            assert(plain@ =~= cipher@);
        }
        plain
    } else {
        let mut i: usize = 0;
        while i < n
            invariant
                0 <= i <= n,
                n == cipher@.len(),
                key@.len() > 0,
                plain@.len() == i,
                forall|k: int| 0 <= k < i ==> plain@[k] == cipher@[k] ^ key@[k % key@.len() as int],
            decreases n - i,
        {
            plain.push(cipher[i] ^ key[i % key.len()]);
            i = i + 1;
        }
        proof {
            assert(plain@ =~= spec_decrypt(cipher@, key@));
        }
        plain
    }
}

/// Decode a raw log container into a flight.
///
/// The header decides everything fatal: an unknown magic or version is
/// `UnsupportedFormat`; an encrypted version without key material is
/// `CredentialMissing`; key material that does not produce the payload magic
/// is `DecryptionFailed`. Whatever record-level corruption the payload holds,
/// a well-formed container decodes successfully, with warnings counted.
pub fn decode_log(bytes: &[u8], key: Option<&[u8]>) -> (r: Result<DecodedLog, DecodeError>)
    ensures
        match r {
            Ok(log) => {
                &&& spec_header_ok(bytes@)
                &&& log.version == spec_version(bytes@)
                &&& log.drone_model == spec_model(bytes@)
                &&& log.drone_serial == spec_serial(bytes@)
                &&& (spec_version(bytes@) >= ENCRYPTED_MIN_VERSION ==> key is Some)
                &&& {
                    let rb = spec_record_bytes(
                        bytes@,
                        match key {
                            Some(k) => Some(k@),
                            None => None,
                        },
                    );
                    &&& rb is Some
                    &&& log.points@ == spec_records(rb->0, DecodeState::init()).points
                    &&& log.warnings as nat == spec_records(rb->0, DecodeState::init()).warnings
                }
                &&& points_sorted(log.points@)
                &&& forall|k: int| 0 <= k < log.points@.len() ==> (#[trigger] log.points@[k]).spec_wf()
            },
            Err(e) => match e {
                DecodeError::UnsupportedFormat => !spec_header_ok(bytes@),
                DecodeError::CredentialMissing => spec_header_ok(bytes@) && spec_version(bytes@)
                    >= ENCRYPTED_MIN_VERSION && key is None,
                DecodeError::DecryptionFailed => {
                    &&& spec_header_ok(bytes@)
                    &&& spec_version(bytes@) >= ENCRYPTED_MIN_VERSION
                    &&& key is Some
                    &&& spec_record_bytes(bytes@, Some(key->0@)) is None
                },
            },
        },
{
    let n = bytes.len();
    if n < HEADER_LEN {
        return Err(DecodeError::UnsupportedFormat);
    }
    if !(bytes[0] == 68 && bytes[1] == 74 && bytes[2] == 73 && bytes[3] == 76) {
        return Err(DecodeError::UnsupportedFormat);
    }
    let version = bytes[4];
    if version < MIN_VERSION || version > MAX_VERSION {
        return Err(DecodeError::UnsupportedFormat);
    }
    let model_code = bytes[5];
    let drone_model = if model_code == 0 {
        None
    } else {
        Some(model_code)
    };
    let serial = read_u64_le(bytes, 6);
    let drone_serial = if serial == 0 {
        None
    } else {
        Some(serial)
    };
    let payload = slice_subrange(bytes, HEADER_LEN, n);
    proof {
        assert(payload@ =~= bytes@.skip(HEADER_LEN as int));
    }
    if version < ENCRYPTED_MIN_VERSION {
        let (points, warnings) = decode_records(payload);
        Ok(DecodedLog { version, drone_model, drone_serial, points, warnings })
    } else {
        match key {
            None => Err(DecodeError::CredentialMissing),
            Some(k) => {
                let plain = decrypt_payload(payload, k);
                if !(plain.len() >= 4 && plain[0] == 84 && plain[1] == 82 && plain[2] == 69
                    && plain[3] == 67) {
                    return Err(DecodeError::DecryptionFailed);
                }
                let records = slice_subrange(plain.as_slice(), 4, plain.len());
                proof {
                    assert(records@ =~= plain@.skip(4));
                }
                let (points, warnings) = decode_records(records);
                Ok(DecodedLog { version, drone_model, drone_serial, points, warnings })
            },
        }
    }
}

} // verus!
