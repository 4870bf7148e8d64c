//! A verified word/line/byte/character counting library.
//!
//! The library takes the raw bytes of an input, decodes them as UTF-8 with
//! lossy substitution, and counts bytes, lines, words and Unicode scalar
//! values in a single pass.  Around the counting engine stand an argument
//! interpreter and an output formatter, so that a thin command-line shim
//! only has to read the input and print the rendered report.

pub mod args;
pub mod counts;
pub mod decode;
pub mod render;
