//! Ingestion engine of a multi-source content aggregator.
//!
//! Updates from web feeds and from a chat network are normalised into
//! records, deduplicated against a store, and their attached files are
//! tracked from registration to their final place on disk.

pub mod aggregator;
pub mod config;
pub mod models;
pub mod result;
pub mod storage;
pub mod tools;
pub mod updates;
