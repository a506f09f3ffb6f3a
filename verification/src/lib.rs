//! Verified core of a collection downloader: identifier resolution,
//! catalog fetch retry policy, download decision logic with size limits
//! and cooperative cancellation, batch outcome aggregation, and the
//! little-endian binary index encoding.

pub mod catalog;
pub mod cli;
pub mod config;
pub mod download;
pub mod error;
pub mod index;
pub mod resolver;
pub mod scheduler;
pub mod text;
