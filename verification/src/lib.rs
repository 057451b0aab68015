//! A regex-based line search engine: scan line-delimited text against a
//! compiled pattern, extract the byte spans of every occurrence, and fold
//! the results of many scans into one thread-shared statistics aggregator.

pub mod args;
pub mod files;
pub mod matcher;
pub mod pattern;
pub mod stats;
