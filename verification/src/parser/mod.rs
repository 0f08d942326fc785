//! The page model and its extraction from HTML.
pub mod dom;
pub mod extractor;
pub mod model;

pub use model::{
    AttachmentLink, CahierEntry, CoursEntry, CoursView, DevoirEntry, EntryView, LinkView,
    ParsedPage, ParsedPageView,
};
pub use extractor::HtmlExtractor;
