//! Trend statistics for daily cumulative counts per geography and category.
//!
//! The crate turns batches of raw string records into per-bucket totals and
//! short-window percentage trends, keeps the latest snapshot behind a
//! reader/writer lock so readers never see a half-replaced value, and models
//! the consumer task's lifecycle together with a cooperative stop flag.

pub mod numfmt;
pub mod parse;
pub mod date;
pub mod records;
pub mod stats;
pub mod store;
pub mod pipeline;
