//! Rendering of a decoded note document model (styled paragraphs and
//! embedded attachments) into HTML fragments.
pub mod error;
pub mod files;
pub mod media;
pub mod resolve;
pub mod rich_text;
pub mod runs;
pub mod style;
pub mod text;
pub mod whitespace;
