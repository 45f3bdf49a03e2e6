//! Trace scans source trees for marker keywords such as TODO or FIXME that
//! appear inside comments, and reports how often each one occurs, how many
//! files of each language were read and how many lines were processed.
//!
//! The crate holds the pure core of the scanner: the line reader, the
//! comment extractor, the language table, the counters and the decisions of
//! the scan coordinator. Opening files, walking directories and running the
//! worker threads is left to the program built on top of it.

pub mod comment;
pub mod filetype;
pub mod lines;
pub mod platform;
pub mod log_result;
pub mod logger;
pub mod scan;
pub mod table;
pub mod text;

