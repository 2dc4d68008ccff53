//! eml2md - convert e-mail messages to Markdown.
//!
//! The crate parses MIME `Content-Type` header values, projects a decoded
//! message into a domain model, and renders that model to Markdown through a
//! selectable formatter, with image-attachment placeholders replaced by
//! embedded data.

pub mod strutil;
pub mod content_type;
pub mod datetime;
pub mod eml;
pub mod decode;
pub mod formatter;

pub use decode::{parse_eml_bytes, EmlError};
pub use eml::Email;
pub use formatter::{create_formatter, format_markdown, Formatter};
