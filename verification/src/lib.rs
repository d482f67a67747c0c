//! Ingestion-to-viewer pipeline of a log monitor: classification of raw
//! lines, deduplication, ordered fan-out of accepted entries, and the bounded
//! history with its selection cursor that backs the interactive viewer.
//!
//! The library computes and decides; it opens no file and draws nothing.
//! Its callers read the watched file, write the snapshot, talk to the
//! network and own the terminal.

pub mod config;
pub mod cursor;
pub mod dedup;
pub mod logger;
pub mod notifier;
pub mod parser;
pub mod report_generator;
pub mod ring;
pub mod screen;
pub mod snapshot;
pub mod text;
pub mod types;
pub mod utils;
pub mod viewer;
pub mod watcher;

pub use config::LogMonitorConfig;
pub use types::{LogEntry, LogPriority, LogType};
