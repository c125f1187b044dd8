//! Converts a line-delimited flat-text table (first line = header) into a SQL
//! script: one `create table` statement plus one `insert` statement per data
//! row. The converter is a verified state machine writing through pluggable
//! output sinks.

pub mod sink;
pub mod sqltext;
pub mod txt2sql;
pub mod vecwritter;
