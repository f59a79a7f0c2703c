//! Javadoc block comments of Java declarations, rendered as a nested AsciiDoc document.
//!
//! - `source`: the text of one file, read by byte ranges.
//! - `syntax`: a syntax tree held as plain values; `parser` fills it from tree-sitter.
//! - `comment`: a comment's raw text turned into AsciiDoc.
//! - `javadoc`: documentable elements and the walk that builds them from a tree.
//! - `render`: elements rendered as headings, comment bodies and captioned member groups.
//! - `classdoc`: the document of a whole file.
pub mod classdoc;
pub mod comment;
pub mod config;
pub mod javadoc;
pub mod parser;
pub mod render;
pub mod source;
pub mod syntax;
pub mod text;
