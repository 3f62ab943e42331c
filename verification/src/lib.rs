//! A verified fretboard library: parses flat-file instrument/tuning/highlight
//! records, resolves a user selection against them, and renders an ASCII
//! fretboard diagram with the selected notes annotated and the highlighted
//! subset marked.

pub mod fretboard;
pub mod parser;
pub mod records;
pub mod resolver;
pub mod text;
