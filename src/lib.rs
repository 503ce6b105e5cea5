//! Reads an e-reader's exported annotation file (HTML) into a book, its export date
//! and its notes, and projects the notes into highlight records for another tool.
//!
//! - `markup`: the parsed document as an arena of plain nodes, and the queries on it.
//! - `text`: whitespace, trimming, quote normalisation, separators and numbers.
//! - `parse`: the records, one extractor per field, and the whole-document parse.
//! - `export`: the highlight records for every note that is not a bare bookmark.
pub mod export;
pub mod markup;
pub mod parse;
pub mod text;
