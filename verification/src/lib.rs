//! A streaming pretty-printer for structured log lines.
//!
//! A line of the shape `<tag>| <json>` is decoded into a [`record::Log`],
//! its long identifiers are cut down to fixed widths measured in UTF-16 code
//! units, and the record is laid out as one fixed-width line. Any line that
//! cannot be decoded is handed back unchanged.

pub mod abbreviate;
pub mod decode;
pub mod fields;
pub mod foreign;
pub mod numerals;
pub mod record;
pub mod render;
pub mod split;
pub mod utf16;
