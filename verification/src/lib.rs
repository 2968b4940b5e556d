//! A streaming aggregation-and-filtering engine for allocation charts.
//!
//! A raw, append-only stream of object birth/death events is routed through
//! user-configurable filters to per-series lines, coalesced into time buckets
//! that respect a display resolution, and flushed into running-total points
//! that a rendering layer can draw.

pub mod allocs;
pub mod chart;
pub mod config;
pub mod ctf;
pub mod err;
pub mod filter;
pub mod footer;
pub mod msg;
pub mod point;
pub mod text;
pub mod time;
pub mod uid;
