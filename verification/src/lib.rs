//! Verified core of a drone flight-log viewer: decoding of a tagged binary
//! telemetry stream (with an encrypted-payload path for newer firmware),
//! layered decryption-credential resolution, and an in-memory flight store
//! with derived statistics and chart-ready projections.

pub mod decoder;
pub mod distance;
pub mod dotenv;
pub mod hashing;
pub mod keys;
pub mod singleflight;
pub mod stats;
pub mod store;
pub mod telemetry;
