//! Verified core of a concurrent content-discovery scanner.
//!
//! The library holds the pure logic of the engine: wordlist-entry expansion
//! into candidate URLs, configuration-list parsing, response classification
//! against exclusion and calibration filters, directory-likeness and
//! recursion planning, permit accounting for the global concurrency bound,
//! latency metrics, and result-line rendering. Network transport, the
//! terminal display and argument handling live outside the library and hand
//! it plain values.
//!
//! Text is carried as `Vec<char>`, viewed as `Seq<char>` in contracts.

pub mod calibration;
pub mod candidates;
pub mod classify;
pub mod config;
pub mod dispatch;
pub mod frontier;
pub mod metrics;
pub mod render;
pub mod text;
