//! Parser for textual infrastructure plan reports.
//!
//! A plan report lists proposed resource changes: each change is introduced
//! by a header line, classified by a detail line, and followed by a free-form
//! body closed by a brace marker. This crate turns such a report, given as a
//! sequence of lines, into an ordered sequence of structured [`action::Action`]
//! records, and proves the parse correct against a line-level specification.

pub mod action;
pub mod decode;
pub mod laws;
pub mod scan;
pub mod text;
