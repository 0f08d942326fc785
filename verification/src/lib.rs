//! A watcher of course pages: it extracts the class log, announced tests,
//! chapters and documents of each page, compares them with what it recorded,
//! has the change summarised by a Gemini model and notifies it through ntfy.
//! This crate holds the decisions; fetching, the model and ntfy requests,
//! the state file and the daemon loop are driven around it.
pub mod text;
pub mod parser;
pub mod storage;
pub mod diff;
pub mod http;
pub mod ai;
pub mod notifier;
pub mod fetcher;
pub mod config;
pub mod service;
