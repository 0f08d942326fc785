//! What changed on a page since its last recorded state.
pub mod engine;

pub use engine::{DiffEngine, DiffResult, DiffView};
