//! Parses author-written course documents into a typed in-memory model.
//!
//! The core is `parse::parse_course`, a pure function from document text to
//! either a validated [`templates::Course`] or a structured diagnostic
//! ([`parse::ParseError`]), plus `common::generate_error_message`, which
//! renders a diagnostic into a human-readable, multi-line message.

pub mod common;
pub mod loader;
pub mod markdown;
pub mod node;
pub mod parse;
pub mod templates;
pub mod text;
