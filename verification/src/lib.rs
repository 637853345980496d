//! The rules of lifelog, a continuous local activity log: how sampler ticks
//! coalesce into spans, how the ingest API answers a request, how Screen Time
//! data is snapshotted and re-scanned, and how reports are laid out.
//!
//! The program around this library reads the operating system, talks to SQLite
//! and the network, and converts between floating-point and integer times. What
//! its SQL selects, sums, orders and limits is decided there.
pub mod clock;
pub mod db;
pub mod delivery;
pub mod json;
pub mod mac;
pub mod paths;
pub mod report;
pub mod sampler;
pub mod screentime;
pub mod server;
pub mod spans;
pub mod text;
pub mod usage;
