//! Notifications sent through ntfy.
pub mod ntfy;
pub mod payload;

pub use ntfy::NtfyNotifier;
pub use payload::{ActionView, NtfyAction, NtfyPayload, PayloadView};
