//! The watcher's cycle decisions.
pub mod runner;

pub use runner::{fallback_analysis, PageOutcome, WatcherService};
