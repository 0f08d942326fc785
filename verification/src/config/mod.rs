//! The watcher's settings.
pub mod settings;

pub use settings::{AppConfig, ConfigError, ConfigVars};
