//! Text and stream extraction for Hangul Word Processor documents: the legacy
//! compound-file format and the XML-in-archive format.
//!
//! `reader` opens a document held in memory; `document` and `hwpx` turn the
//! streams of each format into text; `header`, `record` and `text` hold the
//! pieces of the legacy format's decoding.
pub mod bytes;
pub mod container;
pub mod document;
pub mod error;
pub mod header;
pub mod hwpx;
pub mod inflate;
pub mod reader;
pub mod record;
pub mod text;
