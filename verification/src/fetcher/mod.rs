//! Fetching course pages.
pub mod client;

pub use client::HttpFetcher;
