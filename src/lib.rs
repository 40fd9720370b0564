//! Monitors the chat of many live channels at once and keeps only the
//! messages whose text matches one pattern.
//!
//! The verified part holds the decisions: which channels to watch, how they
//! are cut into batches, how each chat session reacts to what the server
//! sends, and how the merged output is drained. Network and terminal I/O
//! live outside, and hand these functions plain values.
pub mod batch;
pub mod catalog;
pub mod filter;
pub mod watcher;
pub mod aggregator;
pub mod run;
pub mod api;
