//! Verified resource admission, candidate naming, and JSON ownership
//! accounting for the descriptor-anchored SQLite derived index.
//!
//! Everything here computes on plain values.  Descriptor handling, SQLite
//! connections and serde impls live outside this crate's verified core and
//! hand their measurements to these functions.

pub mod error;
pub mod limits;
pub mod json_model;
mod outside;
pub mod json_scan;
pub mod admission;
pub mod budget;
pub mod preflight;
pub mod candidate;
pub mod classify;
pub mod marker_v4;
pub mod charge_v4;
pub mod ownership;
pub mod selection;
pub mod select_v4;
pub mod rows;
pub mod readback_v4;
pub mod write_v4;
pub mod structure;
pub mod connection;
pub mod publication;
pub mod payload;

pub use error::IndexError;
pub use limits::{IndexLimits, StoreLimits, PAGE_SIZE};
