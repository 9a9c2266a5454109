//! Line, word, character and byte counts for files, and the report that
//! puts them in a table with an optional totals row.
//!
//! The counting works on a file's bytes and on its size as the file system
//! reports it; reading the files and printing the table are left to the
//! program that uses this library.
pub mod metrics;
pub mod report;
