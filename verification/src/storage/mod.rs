//! What the watcher remembers of each page between two checks.
pub mod state;

pub use state::{AppState, PageState, PageStateView};
