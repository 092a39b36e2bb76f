//! Line ingestion and HTTP status-code detection for log monitoring.
//!
//! The library holds the decisions of a log monitor: how raw bytes from a
//! pipe, a followed file or a child process become an ordered stream of
//! lines, which status code a line mentions, and whether that code calls
//! for a notification. Reading, printing and fetching are left to callers.
pub mod codes;
pub mod detect;
pub mod dispatch;
pub mod filter;
pub mod lines;
pub mod process;
pub mod tail;
