//! Record codec and column tuning for an LSM-backed key/value store.
//!
//! Keys and values are flat byte buffers made of records joined by one
//! reserved separator byte. The `de` module reads such buffers, `ser` writes
//! them, and `round_trip` proves that what is written is read back. The
//! `descriptor`, `cache` and `cf_opts` modules turn per-column tuning hints
//! and the global configuration into the settings with which a column is
//! opened. The `appservice` module reads stored appservice registrations.

pub mod appservice;
pub mod cache;
pub mod cf_opts;
pub mod de;
pub mod descriptor;
pub mod error;
pub mod json;
pub mod round_trip;
pub mod ser;
pub mod text;
pub mod wire;

pub use crate::de::{Ignore, IgnoreAll};
