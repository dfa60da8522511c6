//! Tabular ingestion with duration-column inference.
//!
//! A table of text cells is read from delimited text or from the cells of a
//! worksheet, the columns that hold elapsed times are found and rewritten to
//! a canonical number of seconds, and the result is laid out as an ordered
//! list of messages: the headers, the row count, and the rows in bounded
//! batches.

pub mod text;
pub mod duration;
pub mod table;
pub mod infer;
pub mod rewrite;
pub mod error;
pub mod cell;
pub mod reader;
pub mod stream;
pub mod example;
